use jot::csv::{parse_csv_line, split_records};
use jot::dictionary::{DictionaryEntry, DictionaryStore};
use jot::views::dictionary::{add, face, import_file, row};
use jot::views::widgets::{ButtonKind, StatusTone};

fn store() -> DictionaryStore {
    DictionaryStore::new(Vec::new())
}

fn terms(store: &DictionaryStore) -> Vec<String> {
    store.entries().into_iter().map(|e| e.term).collect()
}

#[test]
fn add_rejects_duplicates_and_out_of_range_terms() {
    let mut store = store();
    assert!(store.add("Kubernetes", Some("cooper netties")));
    assert!(!store.add("kubernetes", None), "case-insensitive duplicate");
    assert!(!store.add("", None));
    assert!(!store.add(&"x".repeat(61), None));
    assert_eq!(store.entries().len(), 1);
}

#[test]
fn starred_terms_rank_first_in_both_prompt_inputs() {
    let mut store = store();
    store.add("First", Some("furst"));
    store.add("Second", Some("secund"));
    let id = store.entries()[0].id;
    store.toggle_star(id);

    assert_eq!(store.vocabulary()[0], "First");
    assert_eq!(store.spellings()[0], ("furst".into(), "First".into()));
}

#[test]
fn sanitized_vocabulary_strips_newlines_and_honours_the_byte_ceiling() {
    let mut store = store();
    store.add("Alpha\nBeta", None);
    assert_eq!(store.sanitized_vocabulary(2048), vec!["Alpha Beta"]);
    // A ceiling below the first term's cost yields nothing rather than a
    // truncated term.
    assert!(store.sanitized_vocabulary(4).is_empty());
}

#[test]
fn replacement_rules_skip_entries_without_a_misspelling() {
    let mut store = store();
    store.add("Kubernetes", Some("cooper netties"));
    store.add("Ammaar", None);
    let rules = store.replacement_rules();
    assert_eq!(rules.len(), 1);
    assert_eq!(rules[0].right, "Kubernetes");
}

#[test]
fn csv_round_trips() {
    let mut source = store();
    source.add("gRPC", Some("g r p c"));
    source.add("Quote\"Term", None);

    let mut target = store();
    assert_eq!(target.import_csv(&source.export_csv()), 2);
    let terms = terms(&target);
    assert!(terms.contains(&"gRPC".to_string()));
    assert!(terms.contains(&"Quote\"Term".to_string()));
}

#[test]
fn import_handles_crlf_and_headerless_files() {
    let mut store = store();
    assert_eq!(store.import_csv("terminal,terminul\r\nKubernetes,\r\n"), 2);
    let terms = terms(&store);
    assert!(terms.contains(&"terminal".to_string()), "{terms:?}");
}

#[test]
fn import_drops_only_a_real_header_row() {
    let mut store = store();
    assert_eq!(store.import_csv("term,misspelling\nKubernetes,cooper netties"), 1);
    assert_eq!(store.entries().len(), 1);
    assert_eq!(store.entries()[0].term, "Kubernetes");
}

#[test]
fn import_skips_duplicates_within_and_across_the_file() {
    let mut store = store();
    store.add("gRPC", None);
    assert_eq!(store.import_csv("gRPC,\ngrpc,\nNew,"), 1);
}

#[test]
fn quoted_newlines_do_not_split_a_record() {
    assert_eq!(split_records("\"a\nb\",c\nd,e").len(), 2);
}

#[test]
fn an_export_is_read_back_as_it_was() {
    let mut source = store();
    source.add("a, \"b\"\nc", Some("x,\"y\""));
    source.add("plain", None);
    let csv = source.export_csv();
    assert_eq!(
        csv,
        "term,misspelling\n\"a, \"\"b\"\"\nc\",\"x,\"\"y\"\"\"\n\"plain\",\"\""
    );
    let mut target = store();
    assert_eq!(target.import_csv(&csv), 2);
    let back = target.entries();
    assert_eq!(back[0].term, "a, \"b\"\nc");
    assert_eq!(back[0].misspelling.as_deref(), Some("x,\"y\""));
    assert_eq!(back[1].misspelling, None);
}

#[test]
fn a_cell_is_trimmed_and_a_doubled_quote_is_one() {
    assert_eq!(parse_csv_line(" a , \"b \"\"c\"\"\" ,"), vec!["a", "b \"c\"", ""]);
    assert_eq!(parse_csv_line(""), vec![""]);
}

#[test]
fn an_import_stops_at_a_thousand_rows() {
    let csv: String = (0..1100).map(|n| format!("term number {n}\n")).collect();
    let mut store = store();
    assert_eq!(store.import_csv(&csv), 1000);
}

#[test]
fn removing_drops_just_that_entry() {
    let mut store = store();
    store.add("one", None);
    store.add("two", None);
    let id = store.entries()[0].id;
    store.remove(id);
    assert_eq!(terms(&store), vec!["two"]);
}

#[test]
fn two_entries_never_share_an_identifier() {
    let a = DictionaryEntry::new("a", None);
    let b = DictionaryEntry::new("b", Some(String::new()));
    assert_ne!(a.id, b.id);
    assert_eq!(b.misspelling, None);
    assert!(a.created_at > 1_600_000_000_000_000_000);
}

#[test]
fn an_identifier_is_marked_as_random() {
    let entry = DictionaryEntry::new("a", None);
    assert_eq!((entry.id >> 76) & 0xF, 4);
    assert_eq!((entry.id >> 62) & 0x3, 2);
}

#[test]
fn the_window_says_what_became_of_a_term() {
    let mut store = store();
    assert_eq!(
        face(&store).empty_words,
        Some("No terms yet. Add the names and product words Jot keeps getting wrong.")
    );
    let (said, taken) = add(&mut store, "   ", "");
    assert_eq!(said.words, "A term has to be 1 to 60 characters");
    assert_eq!(said.tone, StatusTone::Bad);
    assert!(!taken);
    let (said, taken) = add(&mut store, " gRPC ", " g r p c ");
    assert_eq!(said.words, "Added gRPC");
    assert!(taken);
    let (said, taken) = add(&mut store, "GRPC", "");
    assert_eq!(said.words, "GRPC is already in your dictionary");
    assert_eq!(said.tone, StatusTone::Neutral);
    assert!(!taken);
    assert!(face(&store).can_export);

    let shown = row(&store.entries()[0]);
    assert_eq!(shown.words, "always corrects \"g r p c\"");
    assert_eq!((shown.star, shown.star_kind), ("Star", ButtonKind::Secondary));
}

#[test]
fn the_window_says_what_an_import_brought() {
    let mut store = store();
    let said = import_file(&mut store, Ok("a,\nb,\n".to_string()));
    assert_eq!(said.words, "Imported 2 terms");
    let said = import_file(&mut store, Ok("a,\n".to_string()));
    assert_eq!(said.words, "Nothing new in that file");
    let said = import_file(&mut store, Err("denied".to_string()));
    assert_eq!(said.words, "Couldn't read that file: denied");
    assert_eq!(said.tone, StatusTone::Bad);
}
