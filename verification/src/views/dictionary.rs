//! The dictionary's window: your jargon, spelled right.

use vstd::prelude::*;

use crate::csv::{imported, typed};
use crate::dictionary::{
    fits,
    known,
    DictionaryEntry,
    DictionaryStore,
    EntryView,
    MAX_TERM,
};
use crate::ids::random_id;
use crate::text::{chars_of, decimal, decimal_of, string_of, trim, trimmed};
use crate::views::widgets::{ButtonKind, Said, SaidView, StatusTone};

verus! {

pub const EMPTY_WORDS: &'static str = "No terms yet. Add the names and product words Jot keeps getting wrong.";

/// What is said of a term.
pub open spec fn add_said(term: Seq<char>, present: bool) -> SaidView {
    if !fits(term) {
        SaidView {
            words: "A term has to be 1 to "@ + decimal(MAX_TERM as nat) + " characters"@,
            tone: StatusTone::Bad,
        }
    } else if present {
        SaidView {
            words: term + " is already in your dictionary"@,
            tone: StatusTone::Neutral,
        }
    } else {
        SaidView { words: "Added "@ + term, tone: StatusTone::Good }
    }
}

/// Adds what is in the two fields. If it is taken the fields are emptied.
pub fn add(dictionary: &mut DictionaryStore, term: &str, misspelling: &str) -> (done: (Said, bool))
    ensures
        ({
            let kept = trim(term@);
            let present = known(old(dictionary)@, kept);
            &&& done.0@ == add_said(kept, present)
            &&& done.1 == (fits(kept) && !present)
            &&& !done.1 ==> final(dictionary)@ == old(dictionary)@
            &&& done.1 ==> {
                let entry = final(dictionary)@.last();
                &&& final(dictionary)@ == old(dictionary)@.push(entry)
                &&& entry == EntryView::fresh(
                    kept,
                    Some(trim(misspelling@)),
                    entry.id,
                    entry.created_at,
                )
                &&& random_id(entry.id)
            }
        }),
{
    let kept = trimmed(&chars_of(term));
    if kept.len() == 0 || kept.len() > MAX_TERM {
        let mut words = "A term has to be 1 to ".to_owned();
        words.append(string_of(&decimal_of(MAX_TERM as u128)).as_str());
        words.append(" characters");
        return (Said { words, tone: StatusTone::Bad }, false);
    }
    let kept = string_of(&kept);
    if dictionary.add(term, Some(misspelling)) {
        let mut words = "Added ".to_owned();
        words.append(kept.as_str());
        (Said { words, tone: StatusTone::Good }, true)
    } else {
        let mut words = kept;
        words.append(" is already in your dictionary");
        (Said { words, tone: StatusTone::Neutral }, false)
    }
}

/// What a row says of its entry.
pub open spec fn row_said(misspelling: Option<Seq<char>>) -> Seq<char> {
    match misspelling {
        Some(wrong) => "always corrects \""@ + wrong + "\""@,
        None => "spelling hint only"@,
    }
}

/// A row: what it says, and its star.
#[derive(Debug)]
pub struct Row {
    pub term: String,
    pub words: String,
    pub star: &'static str,
    pub star_kind: ButtonKind,
}

pub fn row(entry: &DictionaryEntry) -> (row: Row)
    ensures
        row.term@ == entry@.term,
        row.words@ == row_said(entry@.misspelling),
        row.star@ == (if entry@.starred {
            "Starred"@
        } else {
            "Star"@
        }),
        row.star_kind == (if entry@.starred {
            ButtonKind::Primary
        } else {
            ButtonKind::Secondary
        }),
{
    let words = match &entry.misspelling {
        Some(wrong) => {
            let mut words = "always corrects \"".to_owned();
            words.append(wrong.as_str());
            words.append("\"");
            words
        },
        None => "spelling hint only".to_owned(),
    };
    let (star, star_kind) = if entry.starred {
        ("Starred", ButtonKind::Primary)
    } else {
        ("Star", ButtonKind::Secondary)
    };
    Row { term: entry.term.clone(), words, star, star_kind }
}

/// What is said of an import.
pub open spec fn import_said(count: nat) -> SaidView {
    if count > 0 {
        SaidView {
            words: "Imported "@ + decimal(count) + " terms"@,
            tone: StatusTone::Good,
        }
    } else {
        SaidView { words: "Nothing new in that file"@, tone: StatusTone::Neutral }
    }
}

/// Imports a file, if it could be read.
pub fn import_file(dictionary: &mut DictionaryStore, file: Result<String, String>) -> (said: Said)
    ensures
        match file {
            Ok(csv) => {
                let new = imported(csv@, old(dictionary)@);
                let kept = old(dictionary)@.len() as int;
                &&& said@ == import_said(new.len())
                &&& final(dictionary)@.len() == kept + new.len()
                &&& final(dictionary)@.take(kept) == old(dictionary)@
                &&& typed(final(dictionary)@.skip(kept)) == new
                &&& forall|i: int|
                    kept <= i < final(dictionary)@.len() ==> !(#[trigger] final(
                        dictionary)@[i]).starred && random_id(final(dictionary)@[i].id)
            },
            Err(error) => {
                &&& said@ == (SaidView {
                    words: "Couldn't read that file: "@ + error@,
                    tone: StatusTone::Bad,
                })
                &&& final(dictionary)@ == old(dictionary)@
            },
        },
{
    match file {
        Ok(csv) => {
            let count: usize = dictionary.import_csv(csv.as_str());
            if count > 0 {
                let mut words = "Imported ".to_owned();
                words.append(string_of(&decimal_of(count as u128)).as_str());
                words.append(" terms");
                Said { words, tone: StatusTone::Good }
            } else {
                Said::new("Nothing new in that file", StatusTone::Neutral)
            }
        },
        Err(error) => {
            let mut words = "Couldn't read that file: ".to_owned();
            words.append(error.as_str());
            Said { words, tone: StatusTone::Bad }
        },
    }
}

/// What the list shows: nothing to export means nothing but words.
#[derive(Debug)]
pub struct Face {
    pub empty_words: Option<&'static str>,
    pub can_export: bool,
}

pub fn face(dictionary: &DictionaryStore) -> (face: Face)
    ensures
        face.can_export == (dictionary@.len() > 0),
        match face.empty_words {
            Some(words) => dictionary@.len() == 0 && words@ == EMPTY_WORDS@,
            None => dictionary@.len() > 0,
        },
{
    let count: usize = dictionary.entries.len();
    Face {
        empty_words: if count == 0 {
            Some(EMPTY_WORDS)
        } else {
            None
        },
        can_export: count > 0,
    }
}

/// What is said of a term says what became of it: taken, already there, or not a
/// term; and of an import how many terms were new.
pub proof fn a_term_is_told_what_became_of_it(term: Seq<char>, present: bool, count: nat)
    ensures
        add_said(term, present).tone == StatusTone::Good <==> 1 <= term.len() <= 60 && !present,
        add_said(term, present).tone == StatusTone::Bad <==> term.len() == 0 || term.len() > 60,
        1 <= term.len() <= 60 && !present ==> add_said(term, present).words == "Added "@ + term,
        1 <= term.len() <= 60 && present ==> add_said(term, present).words == term
            + " is already in your dictionary"@,
        import_said(count).tone == StatusTone::Good <==> count > 0,
        count > 0 ==> import_said(count).words == "Imported "@ + decimal(count) + " terms"@,
{
}

} // verus!
