//! The dictionary as comma-separated text: two columns, the term and its
//! misspelling, each in quotes.

use vstd::prelude::*;

use crate::clock::now_utc;
use crate::dictionary::{
    filled,
    fits,
    known,
    DictionaryEntry,
    DictionaryStore,
    EntryView,
    MAX_IMPORT_ROWS,
    MAX_TERM,
};
use crate::ids::{new_v4, random_id};
use crate::text::{
    ascii_lowered,
    chars_of,
    holds_text,
    join,
    joined,
    lowered_ascii,
    opt_text,
    push_all,
    same_chars,
    string_of,
    texts,
    trim,
    trimmed,
    views,
};
use crate::unicode::{lowercase, to_lowercase};

verus! {

/// How far a file has been split into records.
pub struct Splitting {
    pub records: Seq<Seq<char>>,
    pub current: Seq<char>,
    pub in_quotes: bool,
}

impl Splitting {
    pub open spec fn start() -> Splitting {
        Splitting { records: Seq::empty(), current: Seq::empty(), in_quotes: false }
    }

    /// One more character: a line break outside quotes ends a record, and empty
    /// records do not count.
    pub open spec fn step(self, c: char) -> Splitting {
        if c == '"' {
            Splitting { current: self.current.push(c), in_quotes: !self.in_quotes, ..self }
        } else if (c == '\n' || c == '\r') && !self.in_quotes {
            if self.current.len() == 0 {
                self
            } else {
                Splitting {
                    records: self.records.push(self.current),
                    current: Seq::empty(),
                    ..self
                }
            }
        } else {
            Splitting { current: self.current.push(c), ..self }
        }
    }

    pub open spec fn over(self, s: Seq<char>) -> Splitting
        decreases s.len(),
    {
        if s.len() == 0 {
            self
        } else {
            self.over(s.drop_last()).step(s.last())
        }
    }

    /// The records once there is no more text.
    pub open spec fn done(self) -> Seq<Seq<char>> {
        if self.current.len() == 0 {
            self.records
        } else {
            self.records.push(self.current)
        }
    }
}

/// The records of a file.
pub open spec fn records(csv: Seq<char>) -> Seq<Seq<char>> {
    Splitting::start().over(csv).done()
}

fn record_list(csv: &Vec<char>) -> (list: Vec<Vec<char>>)
    ensures
        views(list@) == records(csv@),
{
    let mut list: Vec<Vec<char>> = Vec::new();
    let mut current: Vec<char> = Vec::new();
    let mut in_quotes = false;
    let mut i: usize = 0;
    assert(csv@.take(0) =~= Seq::<char>::empty());
    assert(views(list@) =~= Seq::<Seq<char>>::empty());
    while i < csv.len()
        invariant
            i <= csv@.len(),
            Splitting::start().over(csv@.take(i as int)) == (Splitting {
                records: views(list@),
                current: current@,
                in_quotes,
            }),
        decreases csv@.len() - i,
    {
        let c: char = csv[i];
        proof {
            assert(csv@.take(i + 1).drop_last() =~= csv@.take(i as int));
            assert(csv@.take(i + 1).last() == c);
        }
        if c == '"' {
            in_quotes = !in_quotes;
            current.push(c);
        } else if (c == '\n' || c == '\r') && !in_quotes {
            if current.len() > 0 {
                let ghost before = list@;
                let ghost ended = current@;
                list.push(current);
                assert(views(list@) =~= views(before).push(ended));
                current = Vec::new();
            }
        } else {
            current.push(c);
        }
        i += 1;
    }
    assert(csv@.take(csv@.len() as int) =~= csv@);
    if current.len() > 0 {
        let ghost before = list@;
        let ghost ended = current@;
        list.push(current);
        assert(views(list@) =~= views(before).push(ended));
    }
    list
}

fn strings_of(list: &Vec<Vec<char>>) -> (out: Vec<String>)
    ensures
        texts(out@) == views(list@),
{
    let mut out: Vec<String> = Vec::new();
    let mut i: usize = 0;
    while i < list.len()
        invariant
            i <= list@.len(),
            out@.len() == i,
            forall|k: int| 0 <= k < i ==> (#[trigger] out@[k])@ == list@[k]@,
        decreases list@.len() - i,
    {
        out.push(string_of(&list[i]));
        i += 1;
    }
    assert(texts(out@) =~= views(list@));
    out
}

/// Splits a file into records. Line endings of either kind end one; a line break
/// inside quotes does not.
pub fn split_records(csv: &str) -> (list: Vec<String>)
    ensures
        texts(list@) == records(csv@),
{
    strings_of(&record_list(&chars_of(csv)))
}

/// The columns of what is left of a record, given whether it is inside quotes
/// and what the column so far holds. A doubled quote inside quotes is a quote.
pub open spec fn columns(s: Seq<char>, in_quotes: bool, current: Seq<char>) -> Seq<Seq<char>>
    decreases s.len(),
{
    if s.len() == 0 {
        seq![current]
    } else if s[0] == '"' && in_quotes && s.len() > 1 && s[1] == '"' {
        columns(s.skip(2), in_quotes, current.push('"'))
    } else if s[0] == '"' {
        columns(s.skip(1), !in_quotes, current)
    } else if s[0] == ',' && !in_quotes {
        seq![current] + columns(s.skip(1), in_quotes, Seq::empty())
    } else {
        columns(s.skip(1), in_quotes, current.push(s[0]))
    }
}

/// The cells of a record.
pub open spec fn cells(line: Seq<char>) -> Seq<Seq<char>> {
    columns(line, false, Seq::empty()).map_values(|c: Seq<char>| trim(c))
}

proof fn lemma_columns_exist(s: Seq<char>, in_quotes: bool, current: Seq<char>)
    ensures
        columns(s, in_quotes, current).len() > 0,
    decreases s.len(),
{
    if s.len() == 0 {
    } else if s[0] == '"' && in_quotes && s.len() > 1 && s[1] == '"' {
        lemma_columns_exist(s.skip(2), in_quotes, current.push('"'));
    } else if s[0] == '"' {
        lemma_columns_exist(s.skip(1), !in_quotes, current);
    } else if s[0] == ',' && !in_quotes {
    } else {
        lemma_columns_exist(s.skip(1), in_quotes, current.push(s[0]));
    }
}

fn cell_list(line: &Vec<char>) -> (list: Vec<Vec<char>>)
    ensures
        views(list@) == cells(line@),
        list@.len() > 0,
{
    let n: usize = line.len();
    let ghost goal = columns(line@, false, Seq::empty());
    let mut found: Vec<Vec<char>> = Vec::new();
    let mut current: Vec<char> = Vec::new();
    let mut in_quotes = false;
    let mut i: usize = 0;
    proof {
        assert(line@.skip(0) =~= line@);
        assert(views(found@) =~= Seq::<Seq<char>>::empty());
        assert(Seq::<Seq<char>>::empty() + goal =~= goal);
        lemma_columns_exist(line@, false, Seq::empty());
    }
    while i < n
        invariant
            n == line@.len(),
            i <= n,
            goal == views(found@) + columns(line@.skip(i as int), in_quotes, current@),
        decreases n - i,
    {
        let ghost rest = line@.skip(i as int);
        let c: char = line[i];
        let doubled = i + 1 < n && line[i + 1] == '"';
        proof {
            assert(rest[0] == c);
            if i + 1 < n {
                assert(rest[1] == line@[i + 1]);
                assert(rest.skip(2) =~= line@.skip(i + 2));
            }
            assert(rest.skip(1) =~= line@.skip(i + 1));
        }
        if c == '"' && in_quotes && doubled {
            current.push('"');
            i += 2;
        } else if c == '"' {
            in_quotes = !in_quotes;
            i += 1;
        } else if c == ',' && !in_quotes {
            let ghost before = found@;
            let ghost ended = current@;
            found.push(current);
            current = Vec::new();
            proof {
                let tail = columns(line@.skip(i + 1), in_quotes, Seq::empty());
                assert(views(found@) =~= views(before).push(ended));
                assert(views(before) + (seq![ended] + tail) =~= views(found@) + tail);
                assert(current@ =~= Seq::<char>::empty());
            }
            i += 1;
        } else {
            current.push(c);
            i += 1;
        }
    }
    proof {
        assert(line@.skip(i as int) =~= Seq::<char>::empty());
    }
    let ghost before = found@;
    let ghost ended = current@;
    found.push(current);
    proof {
        assert(views(found@) =~= views(before).push(ended));
        assert(views(before) + seq![ended] =~= views(found@));
    }
    let mut list: Vec<Vec<char>> = Vec::new();
    let mut j: usize = 0;
    while j < found.len()
        invariant
            j <= found@.len(),
            list@.len() == j,
            forall|k: int| 0 <= k < j ==> (#[trigger] list@[k])@ == trim(found@[k]@),
        decreases found@.len() - j,
    {
        list.push(trimmed(&found[j]));
        j += 1;
    }
    assert(views(list@) =~= views(found@).map_values(|c: Seq<char>| trim(c)));
    list
}

/// The cells of a record.
pub fn parse_csv_line(line: &str) -> (list: Vec<String>)
    ensures
        texts(list@) == cells(line@),
{
    strings_of(&cell_list(&chars_of(line)))
}

/// The text with every quote doubled.
pub open spec fn doubled(s: Seq<char>) -> Seq<char>
    decreases s.len(),
{
    if s.len() == 0 {
        Seq::empty()
    } else if s[0] == '"' {
        seq!['"', '"'] + doubled(s.skip(1))
    } else {
        seq![s[0]] + doubled(s.skip(1))
    }
}

fn doubled_of(s: &Vec<char>) -> (out: Vec<char>)
    ensures
        out@ == doubled(s@),
{
    let mut out: Vec<char> = Vec::new();
    let mut i: usize = 0;
    assert(s@.skip(0) =~= s@);
    assert(out@ + doubled(s@) =~= doubled(s@));
    while i < s.len()
        invariant
            i <= s@.len(),
            doubled(s@) == out@ + doubled(s@.skip(i as int)),
        decreases s@.len() - i,
    {
        let ghost before = out@;
        let ghost rest = s@.skip(i as int);
        let c: char = s[i];
        out.push(c);
        if c == '"' {
            out.push(c);
        }
        proof {
            assert(rest[0] == c);
            assert(rest.skip(1) =~= s@.skip(i + 1));
            let tail = doubled(s@.skip(i + 1));
            if c == '"' {
                assert(before + (seq!['"', '"'] + tail) =~= out@ + tail);
            } else {
                assert(before + (seq![c] + tail) =~= out@ + tail);
            }
        }
        i += 1;
    }
    assert(s@.skip(i as int) =~= Seq::<char>::empty());
    assert(out@ + Seq::<char>::empty() =~= out@);
    out
}

/// A cell as it is written.
pub open spec fn quoted(s: Seq<char>) -> Seq<char> {
    seq!['"'] + doubled(s) + seq!['"']
}

/// A line of the file.
pub open spec fn csv_line(term: Seq<char>, misspelling: Option<Seq<char>>) -> Seq<char> {
    quoted(term) + seq![','] + quoted(
        match misspelling {
            Some(m) => m,
            None => Seq::empty(),
        },
    )
}

/// What is carried of a list of entries.
pub open spec fn typed(entries: Seq<EntryView>) -> Seq<(Seq<char>, Option<Seq<char>>)> {
    entries.map_values(|e: EntryView| e.typed())
}

pub open spec fn csv_lines(list: Seq<(Seq<char>, Option<Seq<char>>)>) -> Seq<Seq<char>> {
    list.map_values(|p: (Seq<char>, Option<Seq<char>>)| csv_line(p.0, p.1))
}

/// The whole file.
pub open spec fn csv_file(list: Seq<(Seq<char>, Option<Seq<char>>)>) -> Seq<char> {
    joined(seq!["term,misspelling"@] + csv_lines(list), seq!['\n'])
}

fn quoted_of(s: &Vec<char>) -> (out: Vec<char>)
    ensures
        out@ == quoted(s@),
{
    let mut out: Vec<char> = Vec::new();
    out.push('"');
    push_all(&mut out, &doubled_of(s));
    out.push('"');
    assert(out@ =~= quoted(s@));
    out
}

/// A first cell that is only a heading, in any case. No letter outside ASCII has
/// a letter of these words as its lower case.
pub open spec fn heading(cell: Seq<char>) -> bool {
    let word = ascii_lowered(cell);
    word == "term"@ || word == "word"@ || word == "phrase"@
}

/// The records below the heading, if the first is one. Only a cell that is
/// exactly a heading word counts: a first entry like "terminal" is an entry.
pub open spec fn body(list: Seq<Seq<char>>) -> Seq<Seq<char>> {
    if list.len() > 0 && heading(cells(list[0])[0]) {
        list.skip(1)
    } else {
        list
    }
}

/// The misspelling in a record's cells.
pub open spec fn second(cells: Seq<Seq<char>>) -> Option<Seq<char>> {
    if cells.len() > 1 {
        filled(Some(cells[1]))
    } else {
        None
    }
}

/// What is imported of a list of records, given the terms already there in lower
/// case and how many rows there is room for: each term that fits and is not
/// there yet.
pub open spec fn imports(list: Seq<Seq<char>>, seen: Seq<Seq<char>>, room: int) -> Seq<
    (Seq<char>, Option<Seq<char>>),
>
    decreases list.len(),
{
    if list.len() == 0 || room <= 0 {
        Seq::empty()
    } else {
        let row = cells(list[0]);
        let term = trim(row[0]);
        if !fits(term) || seen.contains(lowercase(term)) {
            imports(list.skip(1), seen, room)
        } else {
            seq![(term, second(row))] + imports(
                list.skip(1),
                seen.push(lowercase(term)),
                room - 1,
            )
        }
    }
}

pub open spec fn lowered_terms(entries: Seq<EntryView>) -> Seq<Seq<char>> {
    entries.map_values(|e: EntryView| lowercase(e.term))
}

/// What importing a file adds to a list of entries.
pub open spec fn imported(csv: Seq<char>, entries: Seq<EntryView>) -> Seq<
    (Seq<char>, Option<Seq<char>>),
> {
    imports(body(records(csv)), lowered_terms(entries), MAX_IMPORT_ROWS as int)
}

pub open spec fn row_views(list: Seq<(String, Option<String>)>) -> Seq<
    (Seq<char>, Option<Seq<char>>),
> {
    list.map_values(|p: (String, Option<String>)| (p.0@, opt_text(p.1)))
}

fn is_heading(cell: &Vec<char>) -> (yes: bool)
    ensures
        yes == heading(cell@),
{
    let word = lowered_ascii(cell);
    same_chars(&word, &chars_of("term")) || same_chars(&word, &chars_of("word")) || same_chars(
        &word,
        &chars_of("phrase"),
    )
}

impl DictionaryStore {
    pub fn export_csv(&self) -> (csv: String)
        ensures
            csv@ == csv_file(typed(self@)),
    {
        let mut lines: Vec<Vec<char>> = Vec::new();
        lines.push(chars_of("term,misspelling"));
        let mut i: usize = 0;
        let ghost head = seq!["term,misspelling"@];
        while i < self.entries.len()
            invariant
                i <= self.entries@.len(),
                lines@.len() == i + 1,
                lines@[0]@ == "term,misspelling"@,
                forall|k: int|
                    0 <= k < i ==> (#[trigger] lines@[k + 1])@ == csv_line(
                        self.entries@[k]@.term,
                        self.entries@[k]@.misspelling,
                    ),
            decreases self.entries@.len() - i,
        {
            let mut line = quoted_of(&chars_of(self.entries[i].term.as_str()));
            line.push(',');
            let wrong = match &self.entries[i].misspelling {
                Some(m) => chars_of(m.as_str()),
                None => Vec::new(),
            };
            push_all(&mut line, &quoted_of(&wrong));
            proof {
                let e = self.entries@[i as int]@;
                assert(wrong@ == (match e.misspelling {
                    Some(m) => m,
                    None => Seq::empty(),
                }));
                assert(line@ =~= csv_line(e.term, e.misspelling));
            }
            lines.push(line);
            i += 1;
        }
        proof {
            let all = csv_lines(typed(self@));
            assert forall|k: int| 0 <= k < views(lines@).len() implies #[trigger] views(lines@)[k]
                == (head + all)[k] by {
                if k > 0 {
                    assert(lines@[(k - 1) + 1]@ == csv_line(
                        self.entries@[k - 1]@.term,
                        self.entries@[k - 1]@.misspelling,
                    ));
                    assert((head + all)[k] == all[k - 1]);
                }
            }
            assert(views(lines@) =~= head + all);
        }
        let mut sep: Vec<char> = Vec::new();
        sep.push('\n');
        assert(sep@ =~= seq!['\n']);
        string_of(&join(&lines, &sep))
    }

    /// What importing a file would add.
    pub fn read_csv(&self, csv: &str) -> (rows: Vec<(String, Option<String>)>)
        ensures
            row_views(rows@) == imported(csv@, self@),
    {
        let list = record_list(&chars_of(csv));
        let ghost all = views(list@);
        let mut i: usize = 0;
        if list.len() > 0 {
            let first = cell_list(&list[0]);
            assert(cells(all[0]) == views(first@));
            if is_heading(&first[0]) {
                i = 1;
            }
        }
        let mut seen: Vec<String> = Vec::new();
        let mut k: usize = 0;
        while k < self.entries.len()
            invariant
                k <= self.entries@.len(),
                seen@.len() == k,
                forall|j: int|
                    0 <= j < k ==> (#[trigger] seen@[j])@ == lowercase(self.entries@[j]@.term),
            decreases self.entries@.len() - k,
        {
            seen.push(to_lowercase(self.entries[k].term.as_str()));
            k += 1;
        }
        assert(texts(seen@) =~= lowered_terms(self@));
        let mut rows: Vec<(String, Option<String>)> = Vec::new();
        let ghost goal = imported(csv@, self@);
        proof {
            assert(all.skip(0) =~= all);
            assert(body(all) == all.skip(i as int));
            assert(row_views(rows@) =~= Seq::<(Seq<char>, Option<Seq<char>>)>::empty());
            assert(row_views(rows@) + goal =~= goal);
        }
        while i < list.len() && rows.len() < MAX_IMPORT_ROWS
            invariant
                i <= list@.len(),
                all == views(list@),
                rows@.len() <= MAX_IMPORT_ROWS,
                goal == row_views(rows@) + imports(
                    all.skip(i as int),
                    texts(seen@),
                    MAX_IMPORT_ROWS - rows@.len(),
                ),
            decreases list@.len() - i,
        {
            let row = cell_list(&list[i]);
            let kept = trimmed(&row[0]);
            let term = string_of(&kept);
            let ghost rest = all.skip(i as int);
            let ghost here = cells(rest[0]);
            proof {
                assert(rest[0] == list@[i as int]@);
                assert(here == views(row@));
                assert(here[0] == row@[0]@);
                assert(rest.skip(1) =~= all.skip(i + 1));
            }
            let lowered = to_lowercase(term.as_str());
            if kept.len() > 0 && kept.len() <= MAX_TERM && !holds_text(&seen, lowered.as_str()) {
                let wrong: Option<String> = if row.len() > 1 && row[1].len() > 0 {
                    Some(string_of(&row[1]))
                } else {
                    None
                };
                let ghost before = rows@;
                let ghost added = (term@, opt_text(wrong));
                let ghost were = seen@;
                proof {
                    if row@.len() > 1 {
                        assert(here[1] == row@[1]@);
                    }
                    assert(added == (trim(here[0]), second(here)));
                }
                rows.push((term, wrong));
                seen.push(lowered);
                proof {
                    assert(texts(seen@) =~= texts(were).push(lowercase(added.0)));
                    assert(row_views(rows@) =~= row_views(before).push(added));
                    let tail = imports(
                        all.skip(i + 1),
                        texts(seen@),
                        MAX_IMPORT_ROWS - rows@.len(),
                    );
                    assert(row_views(before) + (seq![added] + tail) =~= row_views(rows@) + tail);
                }
            }
            i += 1;
        }
        proof {
            let left = imports(
                all.skip(i as int),
                texts(seen@),
                MAX_IMPORT_ROWS - rows@.len(),
            );
            assert(left =~= Seq::<(Seq<char>, Option<Seq<char>>)>::empty());
            assert(row_views(rows@) + left =~= row_views(rows@));
        }
        rows
    }

    /// Adds what a file holds, and returns how many entries that were.
    pub fn import_csv(&mut self, csv: &str) -> (count: usize)
        ensures
            count == imported(csv@, old(self)@).len(),
            final(self)@.len() == old(self)@.len() + count,
            final(self)@.take(old(self)@.len() as int) == old(self)@,
            typed(final(self)@.skip(old(self)@.len() as int)) == imported(csv@, old(self)@),
            forall|i: int|
                old(self)@.len() <= i < final(self)@.len() ==> !(#[trigger] final(
                    self)@[i]).starred && random_id(final(self)@[i].id),
    {
        let rows = self.read_csv(csv);
        let n: usize = rows.len();
        let ghost before = self@;
        let ghost goal = imported(csv@, before);
        let mut i: usize = 0;
        assert(row_views(rows@).len() == n);
        proof {
            lemma_imports_are_filled(
                body(records(csv@)),
                lowered_terms(before),
                MAX_IMPORT_ROWS as int,
            );
        }
        while i < n
            invariant
                n == rows@.len(),
                i <= n,
                goal == row_views(rows@),
                forall|k: int| 0 <= k < goal.len() ==> filled((#[trigger] goal[k]).1) == goal[k].1,
                self@.len() == before.len() + i,
                forall|k: int| 0 <= k < before.len() ==> #[trigger] self@[k] == before[k],
                forall|k: int|
                    before.len() <= k < self@.len() ==> (#[trigger] self@[k]).typed() == goal[k
                        - before.len()] && !self@[k].starred && random_id(self@[k].id),
            decreases n - i,
        {
            let ghost were = self@;
            let wrong = rows[i].1.clone();
            let entry = DictionaryEntry::with_id(
                rows[i].0.as_str(),
                wrong,
                new_v4(),
                now_utc(),
            );
            let ghost added = entry@;
            proof {
                assert(goal[i as int] == (rows@[i as int].0@, opt_text(rows@[i as int].1)));
                assert(added.typed() == goal[i as int]);
            }
            self.entries.push(entry);
            proof {
                assert(self@ =~= were.push(added));
                assert forall|k: int| before.len() <= k < self@.len() implies (
                #[trigger] self@[k]).typed() == goal[k - before.len()] && !self@[k].starred
                    && random_id(self@[k].id) by {
                    if k < were.len() {
                        assert(self@[k] == were[k]);
                    }
                }
            }
            i += 1;
        }
        proof {
            assert(self@.take(before.len() as int) =~= before);
            assert(typed(self@.skip(before.len() as int)) =~= goal);
        }
        n
    }
}

proof fn lemma_imports_are_filled(list: Seq<Seq<char>>, seen: Seq<Seq<char>>, room: int)
    ensures
        forall|k: int|
            0 <= k < imports(list, seen, room).len() ==> filled(
                (#[trigger] imports(list, seen, room)[k]).1,
            ) == imports(list, seen, room)[k].1,
    decreases list.len(),
{
    if list.len() > 0 && room > 0 {
        let row = cells(list[0]);
        let term = trim(row[0]);
        if !fits(term) || seen.contains(lowercase(term)) {
            lemma_imports_are_filled(list.skip(1), seen, room);
        } else {
            let more = seen.push(lowercase(term));
            lemma_imports_are_filled(list.skip(1), more, room - 1);
            let tail = imports(list.skip(1), more, room - 1);
            let all = imports(list, seen, room);
            assert forall|k: int| 0 <= k < all.len() implies filled((#[trigger] all[k]).1)
                == all[k].1 by {
                if k > 0 {
                    assert(all[k] == tail[k - 1]);
                }
            }
        }
    }
}

proof fn lemma_over_append(st: Splitting, a: Seq<char>, b: Seq<char>)
    ensures
        st.over(a + b) == st.over(a).over(b),
    decreases b.len(),
{
    if b.len() == 0 {
        assert(a + b =~= a);
    } else {
        lemma_over_append(st, a, b.drop_last());
        assert((a + b).drop_last() =~= a + b.drop_last());
        assert((a + b).last() == b.last());
    }
}

proof fn lemma_over_one(st: Splitting, c: char)
    ensures
        st.over(seq![c]) == st.step(c),
{
    assert(seq![c].drop_last() =~= Seq::<char>::empty());
    assert(st.over(Seq::<char>::empty()) == st);
}

/// Inside quotes, a doubled text is taken as it stands.
proof fn lemma_over_doubled(st: Splitting, s: Seq<char>)
    requires
        st.in_quotes,
    ensures
        st.over(doubled(s)) == (Splitting { current: st.current + doubled(s), ..st }),
    decreases s.len(),
{
    if s.len() == 0 {
        assert(st.current + Seq::<char>::empty() =~= st.current);
    } else {
        let rest = doubled(s.skip(1));
        if s[0] == '"' {
            let two = seq!['"', '"'];
            lemma_over_append(st, two, rest);
            lemma_over_append(st, seq!['"'], seq!['"']);
            assert(two =~= seq!['"'] + seq!['"']);
            lemma_over_one(st, '"');
            let once = st.step('"');
            lemma_over_one(once, '"');
            let twice = once.step('"');
            assert(twice == (Splitting { current: st.current.push('"').push('"'), ..st }));
            lemma_over_doubled(twice, s.skip(1));
            assert(twice.current + rest =~= st.current + doubled(s));
        } else {
            lemma_over_append(st, seq![s[0]], rest);
            lemma_over_one(st, s[0]);
            let once = st.step(s[0]);
            lemma_over_doubled(once, s.skip(1));
            assert(once.current + rest =~= st.current + doubled(s));
        }
    }
}

/// Outside quotes, a quoted cell is taken as it stands.
proof fn lemma_over_quoted(st: Splitting, s: Seq<char>)
    requires
        !st.in_quotes,
    ensures
        st.over(quoted(s)) == (Splitting { current: st.current + quoted(s), ..st }),
{
    let open = seq!['"'];
    lemma_over_append(st, open + doubled(s), open);
    lemma_over_append(st, open, doubled(s));
    lemma_over_one(st, '"');
    let inside = st.step('"');
    lemma_over_doubled(inside, s);
    let full = Splitting { current: inside.current + doubled(s), ..inside };
    lemma_over_one(full, '"');
    assert(full.step('"').current =~= st.current + quoted(s));
}

/// A line of the file is one record.
proof fn lemma_over_line(st: Splitting, term: Seq<char>, misspelling: Option<Seq<char>>)
    requires
        !st.in_quotes,
    ensures
        st.over(csv_line(term, misspelling)) == (Splitting {
            current: st.current + csv_line(term, misspelling),
            ..st
        }),
{
    let wrong = match misspelling {
        Some(m) => m,
        None => Seq::empty(),
    };
    lemma_over_append(st, quoted(term) + seq![','], quoted(wrong));
    lemma_over_append(st, quoted(term), seq![',']);
    lemma_over_quoted(st, term);
    let first = Splitting { current: st.current + quoted(term), ..st };
    lemma_over_one(first, ',');
    let comma = first.step(',');
    lemma_over_quoted(comma, wrong);
    assert(comma.current + quoted(wrong) =~= st.current + csv_line(term, misspelling));
}

/// A file splits into its heading and its lines.
proof fn lemma_file_records(list: Seq<(Seq<char>, Option<Seq<char>>)>)
    ensures
        Splitting::start().over(csv_file(list)) == (Splitting {
            records: (seq!["term,misspelling"@] + csv_lines(list)).drop_last(),
            current: (seq!["term,misspelling"@] + csv_lines(list)).last(),
            in_quotes: false,
        }),
    decreases list.len(),
{
    let head = seq!["term,misspelling"@];
    let all = head + csv_lines(list);
    reveal_strlit("term,misspelling");
    if list.len() == 0 {
        assert(all =~= head);
        assert(joined(all, seq!['\n']) == all[0]);
        assert(all.drop_last() =~= Seq::<Seq<char>>::empty());
        lemma_over_heading();
    } else {
        let less = list.drop_last();
        lemma_file_records(less);
        let before = head + csv_lines(less);
        assert(csv_lines(list) =~= csv_lines(less).push(csv_line(list.last().0, list.last().1)));
        assert(all.drop_last() =~= before);
        assert(all.last() == csv_line(list.last().0, list.last().1));
        let st = Splitting::start();
        let so_far = csv_file(less);
        lemma_over_append(st, so_far + seq!['\n'], all.last());
        lemma_over_append(st, so_far, seq!['\n']);
        let at = st.over(so_far);
        lemma_over_one(at, '\n');
        assert(at.current.len() > 0) by {
            if less.len() == 0 {
                assert(before.last() == "term,misspelling"@);
            } else {
                assert(before.last() == csv_line(less.last().0, less.last().1));
            }
        }
        let fresh = at.step('\n');
        assert(fresh.records =~= before) by {
            assert(before.drop_last().push(before.last()) =~= before);
        }
        lemma_over_line(fresh, list.last().0, list.last().1);
        assert(Seq::<char>::empty() + all.last() =~= all.last());
    }
}

proof fn lemma_over_heading()
    ensures
        Splitting::start().over("term,misspelling"@) == (Splitting {
            records: Seq::empty(),
            current: "term,misspelling"@,
            in_quotes: false,
        }),
{
    reveal_strlit("term,misspelling");
    lemma_over_plain(Splitting::start(), "term,misspelling"@);
    assert(Seq::<char>::empty() + "term,misspelling"@ =~= "term,misspelling"@);
}

/// Text without quotes and line breaks is taken as it stands.
proof fn lemma_over_plain(st: Splitting, s: Seq<char>)
    requires
        forall|i: int| 0 <= i < s.len() ==> #[trigger] s[i] != '"' && s[i] != '\n' && s[i] != '\r',
    ensures
        st.over(s) == (Splitting { current: st.current + s, ..st }),
    decreases s.len(),
{
    if s.len() == 0 {
        assert(st.current + s =~= st.current);
    } else {
        let less = s.drop_last();
        assert forall|i: int| 0 <= i < less.len() implies #[trigger] less[i] != '"' && less[i]
            != '\n' && less[i] != '\r' by {
            assert(less[i] == s[i]);
        }
        lemma_over_plain(st, less);
        assert(s[s.len() - 1] != '"');
        assert((st.current + less).push(s.last()) =~= st.current + s);
    }
}

/// Inside quotes, a doubled text followed by the closing quote is the text.
proof fn lemma_columns_doubled(s: Seq<char>, rest: Seq<char>, current: Seq<char>)
    requires
        rest.len() > 0 ==> rest[0] != '"',
    ensures
        columns(doubled(s) + (seq!['"'] + rest), true, current) == columns(
            rest,
            false,
            current + s,
        ),
    decreases s.len(),
{
    let close = seq!['"'] + rest;
    let line = doubled(s) + close;
    if s.len() == 0 {
        assert(line =~= close);
        assert(line.skip(1) =~= rest);
        assert(current + s =~= current);
        if rest.len() > 0 {
            assert(line[1] == rest[0]);
        }
    } else {
        lemma_columns_doubled(s.skip(1), rest, current.push(s[0]));
        assert(current.push(s[0]) + s.skip(1) =~= current + s);
        let tail = doubled(s.skip(1)) + close;
        if s[0] == '"' {
            assert(line =~= seq!['"', '"'] + tail);
            assert(line[0] == '"' && line[1] == '"');
            assert(line.skip(2) =~= tail);
        } else {
            assert(line =~= seq![s[0]] + tail);
            assert(line[0] == s[0]);
            assert(line.skip(1) =~= tail);
        }
    }
}

/// A line of the file has the two cells it was made of.
proof fn lemma_line_cells(term: Seq<char>, misspelling: Option<Seq<char>>)
    ensures
        columns(csv_line(term, misspelling), false, Seq::empty()) == seq![
            term,
            match misspelling {
                Some(m) => m,
                None => Seq::empty(),
            },
        ],
{
    let wrong = match misspelling {
        Some(m) => m,
        None => Seq::empty(),
    };
    let line = csv_line(term, misspelling);
    let after = seq![','] + quoted(wrong);
    assert(line =~= seq!['"'] + (doubled(term) + (seq!['"'] + after)));
    assert(line[0] == '"');
    assert(line.skip(1) =~= doubled(term) + (seq!['"'] + after));
    lemma_columns_doubled(term, after, Seq::empty());
    assert(Seq::<char>::empty() + term =~= term);
    assert(after[0] == ',');
    assert(after.skip(1) =~= quoted(wrong));
    let q = quoted(wrong);
    let none = Seq::<char>::empty();
    assert(q =~= seq!['"'] + (doubled(wrong) + (seq!['"'] + none)));
    assert(q[0] == '"');
    assert(q.skip(1) =~= doubled(wrong) + (seq!['"'] + none));
    lemma_columns_doubled(wrong, none, Seq::empty());
    assert(Seq::<char>::empty() + wrong =~= wrong);
    assert(columns(q, false, none) == seq![wrong]);
    assert(seq![term] + seq![wrong] =~= seq![term, wrong]);
}

/// What the dictionary holds after its own edits: a trimmed term that fits, and
/// a trimmed misspelling with something in it, if any.
pub open spec fn tidy(p: (Seq<char>, Option<Seq<char>>)) -> bool {
    &&& fits(p.0)
    &&& trim(p.0) == p.0
    &&& p.1 matches Some(m) ==> m.len() > 0 && trim(m) == m
}

/// No two terms are the same, case aside.
pub open spec fn distinct_terms(list: Seq<(Seq<char>, Option<Seq<char>>)>) -> bool {
    forall|i: int, j: int|
        0 <= i < j < list.len() ==> lowercase((#[trigger] list[i]).0) != lowercase(
            (#[trigger] list[j]).0,
        )
}

proof fn lemma_imports_lines(
    list: Seq<(Seq<char>, Option<Seq<char>>)>,
    seen: Seq<Seq<char>>,
    room: int,
)
    requires
        forall|i: int| 0 <= i < list.len() ==> tidy(#[trigger] list[i]),
        distinct_terms(list),
        forall|i: int| 0 <= i < list.len() ==> !seen.contains(lowercase((#[trigger] list[i]).0)),
        list.len() <= room,
    ensures
        imports(csv_lines(list), seen, room) == list,
    decreases list.len(),
{
    let lines = csv_lines(list);
    if list.len() > 0 {
        let (term, wrong) = list[0];
        assert(tidy(list[0]));
        lemma_line_cells(term, wrong);
        let row = cells(lines[0]);
        let m = match wrong {
            Some(m) => m,
            None => Seq::empty(),
        };
        assert(row =~= seq![trim(term), trim(m)]);
        assert(trim(Seq::<char>::empty()) == Seq::<char>::empty());
        assert(trim(m) == m);
        assert(second(row) == wrong);
        let rest = list.skip(1);
        let more = seen.push(lowercase(term));
        assert(lines.skip(1) =~= csv_lines(rest));
        assert forall|i: int| 0 <= i < rest.len() implies tidy(#[trigger] rest[i]) by {
            assert(rest[i] == list[i + 1]);
        }
        assert forall|i: int, j: int| 0 <= i < j < rest.len() implies lowercase(
            (#[trigger] rest[i]).0,
        ) != lowercase((#[trigger] rest[j]).0) by {
            assert(rest[i] == list[i + 1] && rest[j] == list[j + 1]);
        }
        assert forall|i: int| 0 <= i < rest.len() implies !more.contains(
            lowercase((#[trigger] rest[i]).0),
        ) by {
            assert(rest[i] == list[i + 1]);
            let low = lowercase(rest[i].0);
            assert(lowercase(list[0].0) != low);
            assert(!seen.contains(lowercase(list[i + 1].0)));
            if more.contains(low) {
                let k = choose|k: int| 0 <= k < more.len() && more[k] == low;
                assert(seen[k] == low);
            }
        }
        lemma_imports_lines(rest, more, room - 1);
        assert(seq![(term, wrong)] + rest =~= list);
    } else {
        assert(list =~= Seq::empty());
    }
}

proof fn lemma_imports_are_new(list: Seq<Seq<char>>, seen: Seq<Seq<char>>, room: int)
    ensures
        ({
            let new = imports(list, seen, room);
            &&& room >= 0 ==> new.len() <= room
            &&& forall|i: int|
                0 <= i < new.len() ==> fits((#[trigger] new[i]).0) && !seen.contains(
                    lowercase(new[i].0),
                )
            &&& distinct_terms(new)
        }),
    decreases list.len(),
{
    if list.len() > 0 && room > 0 {
        let row = cells(list[0]);
        let term = trim(row[0]);
        if !fits(term) || seen.contains(lowercase(term)) {
            lemma_imports_are_new(list.skip(1), seen, room);
        } else {
            let more = seen.push(lowercase(term));
            lemma_imports_are_new(list.skip(1), more, room - 1);
            let tail = imports(list.skip(1), more, room - 1);
            let new = imports(list, seen, room);
            assert(more.last() == lowercase(term));
            assert forall|i: int| 0 <= i < new.len() implies fits((#[trigger] new[i]).0)
                && !seen.contains(lowercase(new[i].0)) by {
                if i > 0 {
                    assert(new[i] == tail[i - 1]);
                    if seen.contains(lowercase(new[i].0)) {
                        let k = choose|k: int| 0 <= k < seen.len() && seen[k] == lowercase(
                            new[i].0,
                        );
                        assert(more[k] == seen[k]);
                    }
                }
            }
            assert forall|i: int, j: int| 0 <= i < j < new.len() implies lowercase(
                (#[trigger] new[i]).0,
            ) != lowercase((#[trigger] new[j]).0) by {
                assert(new[j] == tail[j - 1]);
                if i > 0 {
                    assert(new[i] == tail[i - 1]);
                } else {
                    assert(!more.contains(lowercase(tail[j - 1].0)));
                    assert(more[more.len() - 1] == lowercase(term));
                }
            }
        }
    }
}

/// Whatever a file holds, an import brings only terms that fit and that are new,
/// case aside: none that is already there, and none twice.
pub proof fn imports_bring_only_new_terms(csv: Seq<char>, entries: Seq<EntryView>)
    ensures
        ({
            let new = imported(csv, entries);
            &&& new.len() <= MAX_IMPORT_ROWS
            &&& forall|i: int|
                0 <= i < new.len() ==> fits((#[trigger] new[i]).0) && !known(entries, new[i].0)
            &&& distinct_terms(new)
        }),
{
    let seen = lowered_terms(entries);
    let new = imported(csv, entries);
    lemma_imports_are_new(body(records(csv)), seen, MAX_IMPORT_ROWS as int);
    assert forall|i: int| 0 <= i < new.len() implies !known(
        entries,
        (#[trigger] new[i]).0,
    ) by {
        assert(!seen.contains(lowercase(new[i].0)));
        if known(entries, new[i].0) {
            let k = choose|k: int|
                0 <= k < entries.len() && lowercase((#[trigger] entries[k]).term) == lowercase(
                    new[i].0,
                );
            assert(seen[k] == lowercase(new[i].0));
        }
    }
}

/// What is exported can be imported: an empty dictionary that imports the file
/// of a tidy one gets the same terms and misspellings, in the same order,
/// whatever quotes, commas and line breaks they hold.
pub proof fn exports_import_again(
    list: Seq<(Seq<char>, Option<Seq<char>>)>,
    entries: Seq<EntryView>,
)
    requires
        forall|i: int| 0 <= i < list.len() ==> tidy(#[trigger] list[i]),
        distinct_terms(list),
        list.len() <= MAX_IMPORT_ROWS,
        entries.len() == 0,
    ensures
        imported(csv_file(list), entries) == list,
{
    lemma_file_records(list);
    let head = seq!["term,misspelling"@];
    let all = head + csv_lines(list);
    let found = records(csv_file(list));
    assert(all.last().len() > 0) by {
        reveal_strlit("term,misspelling");
        if list.len() > 0 {
            assert(all.last() == csv_line(list.last().0, list.last().1));
        } else {
            assert(all.last() == "term,misspelling"@);
        }
    }
    assert(all.drop_last().push(all.last()) =~= all);
    assert(found == all);
    lemma_heading_is_heading();
    assert(found[0] == "term,misspelling"@);
    assert(found.skip(1) =~= csv_lines(list));
    assert(lowered_terms(entries) =~= Seq::<Seq<char>>::empty());
    lemma_imports_lines(list, lowered_terms(entries), MAX_IMPORT_ROWS as int);
}

proof fn lemma_heading_is_heading()
    ensures
        heading(cells("term,misspelling"@)[0]),
{
    reveal_strlit("term,misspelling");
    reveal_strlit("term");
    let s = "term,misspelling"@;
    let none = Seq::<char>::empty();
    let word = seq!['t', 'e', 'r', 'm'];
    assert(s.skip(1).skip(1) =~= s.skip(2));
    assert(s.skip(2).skip(1) =~= s.skip(3));
    assert(s.skip(3).skip(1) =~= s.skip(4));
    assert(none.push('t').push('e').push('r').push('m') =~= word);
    assert(s.skip(4)[0] == ',');
    assert(columns(s.skip(4), false, word)[0] == word);
    assert(s.skip(3)[0] == 'm');
    assert(columns(s.skip(3), false, none.push('t').push('e').push('r')) == columns(
        s.skip(4),
        false,
        word,
    ));
    let ter = none.push('t').push('e').push('r');
    assert(s.skip(2)[0] == 'r');
    assert(columns(s.skip(2), false, none.push('t').push('e')) == columns(s.skip(3), false, ter));
    assert(s.skip(1)[0] == 'e');
    assert(columns(s.skip(1), false, none.push('t')) == columns(
        s.skip(2),
        false,
        none.push('t').push('e'),
    ));
    assert(s[0] == 't');
    assert(columns(s, false, none) == columns(s.skip(1), false, none.push('t')));
    lemma_columns_exist(s, false, none);
    assert(columns(s, false, none)[0] == word);
    assert(!crate::text::white_space('t') && !crate::text::white_space('m'));
    assert(trim(word) == word);
    assert(ascii_lowered(word) =~= "term"@);
    assert(cells(s)[0] == word);
}

proof fn lemma_columns_plain(a: Seq<char>, rest: Seq<char>, current: Seq<char>)
    requires
        forall|i: int| 0 <= i < a.len() ==> #[trigger] a[i] != '"' && a[i] != ',',
    ensures
        columns(a + rest, false, current) == columns(rest, false, current + a),
    decreases a.len(),
{
    if a.len() == 0 {
        assert(a + rest =~= rest);
        assert(current + a =~= current);
    } else {
        let less = a.skip(1);
        assert forall|i: int| 0 <= i < less.len() implies #[trigger] less[i] != '"' && less[i]
            != ',' by {
            assert(less[i] == a[i + 1]);
        }
        assert((a + rest)[0] == a[0]);
        assert((a + rest).skip(1) =~= less + rest);
        lemma_columns_plain(less, rest, current.push(a[0]));
        assert(current.push(a[0]) + less =~= current + a);
    }
}

/// A line without quotes is its cells between the commas, without the white space
/// around them.
pub proof fn a_comma_parts_the_cells(term: Seq<char>, rest: Seq<char>)
    requires
        forall|i: int| 0 <= i < term.len() ==> #[trigger] term[i] != '"' && term[i] != ',',
        forall|i: int| 0 <= i < rest.len() ==> #[trigger] rest[i] != '"' && rest[i] != ',',
    ensures
        cells(term) == seq![trim(term)],
        cells(term + seq![','] + rest) == seq![trim(term), trim(rest)],
{
    let none = Seq::<char>::empty();
    lemma_columns_plain(term, none, none);
    assert(term + none =~= term);
    assert(none + term =~= term);
    assert(cells(term) =~= seq![trim(term)]);
    lemma_columns_plain(term, seq![','] + rest, none);
    assert(term + seq![','] + rest =~= term + (seq![','] + rest));
    assert((seq![','] + rest).skip(1) =~= rest);
    lemma_columns_plain(rest, none, none);
    assert(rest + none =~= rest);
    assert(none + rest =~= rest);
    assert(columns(term + seq![','] + rest, false, none) =~= seq![term, rest]);
    assert(cells(term + seq![','] + rest) =~= seq![trim(term), trim(rest)]);
}

/// A line break outside quotes parts the records, and an empty line is none.
pub proof fn a_line_break_parts_the_records(line: Seq<char>, rest: Seq<char>)
    requires
        forall|i: int|
            0 <= i < line.len() ==> #[trigger] line[i] != '"' && line[i] != '\n' && line[i] != '\r',
        forall|i: int|
            0 <= i < rest.len() ==> #[trigger] rest[i] != '"' && rest[i] != '\n' && rest[i] != '\r',
        line.len() > 0,
        rest.len() > 0,
    ensures
        records(line) == seq![line],
        records(line + seq!['\n'] + rest) == seq![line, rest],
        records(line + seq!['\r', '\n'] + rest) == seq![line, rest],
        records(seq!['\n'] + line) == seq![line],
{
    let start = Splitting::start();
    let none = Seq::<char>::empty();
    lemma_over_plain(start, line);
    assert(none + line =~= line);
    assert(none + rest =~= rest);
    assert(records(line) =~= seq![line]);
    let one = start.over(line);
    let parted = Splitting { records: seq![line], current: none, in_quotes: false };
    lemma_over_append(start, line + seq!['\n'], rest);
    lemma_over_append(start, line, seq!['\n']);
    lemma_over_one(one, '\n');
    assert(one.step('\n').records =~= parted.records);
    lemma_over_plain(parted, rest);
    assert(records(line + seq!['\n'] + rest) =~= seq![line, rest]);
    lemma_over_append(start, line + seq!['\r', '\n'], rest);
    lemma_over_append(start, line, seq!['\r', '\n']);
    lemma_over_append(one, seq!['\r'], seq!['\n']);
    assert(seq!['\r'] + seq!['\n'] =~= seq!['\r', '\n']);
    lemma_over_one(one, '\r');
    lemma_over_one(parted, '\n');
    assert(one.step('\r').records =~= parted.records);
    assert(records(line + seq!['\r', '\n'] + rest) =~= seq![line, rest]);
    lemma_over_append(start, seq!['\n'], line);
    lemma_over_one(start, '\n');
    assert(records(seq!['\n'] + line) =~= seq![line]);
}

/// The first record is a heading exactly if its first cell is one of the three
/// heading words, in any case; only then is it left out.
pub proof fn only_a_heading_is_skipped(list: Seq<Seq<char>>)
    requires
        list.len() > 0,
    ensures
        ({
            let cell = ascii_lowered(cells(list[0])[0]);
            let named = cell == "term"@ || cell == "word"@ || cell == "phrase"@;
            &&& named ==> body(list) == list.skip(1)
            &&& !named ==> body(list) == list
        }),
{
}

/// No row is lost: of every record whose first cell fits, the term is there
/// already or is imported, case aside, as long as there is room; and a row that is
/// imported comes from a record, with its second cell as the misspelling.
pub proof fn no_row_is_lost(
    list: Seq<Seq<char>>,
    seen: Seq<Seq<char>>,
    room: int,
    k: int,
)
    requires
        0 <= k < list.len(),
        fits(trim(cells(list[k])[0])),
        list.len() <= room,
    ensures
        ({
            let term = lowercase(trim(cells(list[k])[0]));
            seen.contains(term) || exists|i: int|
                0 <= i < imports(list, seen, room).len() && lowercase(
                    (#[trigger] imports(list, seen, room)[i]).0,
                ) == term
        }),
    decreases list.len(),
{
    let row = cells(list[0]);
    let first = trim(row[0]);
    let rest = list.skip(1);
    let new = imports(list, seen, room);
    let wanted = lowercase(trim(cells(list[k])[0]));
    let taken = fits(first) && !seen.contains(lowercase(first));
    if k == 0 {
        if taken {
            assert(lowercase(new[0].0) == wanted);
        }
    } else {
        assert(rest[k - 1] == list[k]);
        if taken {
            let more = seen.push(lowercase(first));
            no_row_is_lost(rest, more, room - 1, k - 1);
            let tail = imports(rest, more, room - 1);
            if more.contains(wanted) {
                let at = choose|at: int| 0 <= at < more.len() && more[at] == wanted;
                if at < seen.len() {
                    assert(seen[at] == wanted);
                } else {
                    assert(lowercase(new[0].0) == wanted);
                }
            } else {
                let i = choose|i: int|
                    0 <= i < tail.len() && lowercase((#[trigger] tail[i]).0) == wanted;
                assert(new[i + 1] == tail[i]);
            }
        } else {
            no_row_is_lost(rest, seen, room, k - 1);
        }
    }
}

/// What is imported of a record is its first cell and, if there is something in
/// it, its second.
pub proof fn an_imported_row_is_its_first_two_cells(
    line: Seq<char>,
    rest: Seq<Seq<char>>,
    seen: Seq<Seq<char>>,
    room: int,
)
    requires
        room > 0,
        fits(trim(cells(line)[0])),
        !seen.contains(lowercase(trim(cells(line)[0]))),
    ensures
        ({
            let row = imports(seq![line] + rest, seen, room)[0];
            &&& row.0 == trim(cells(line)[0])
            &&& cells(line).len() > 1 && cells(line)[1].len() > 0 ==> row.1 == Some(cells(line)[1])
            &&& cells(line).len() <= 1 || cells(line)[1].len() == 0 ==> row.1 is None
        }),
{
    assert((seq![line] + rest)[0] == line);
}

/// The file has a line for every entry, with its term and its misspelling.
pub proof fn an_export_has_every_entry(dictionary: DictionaryStore, csv: String, i: int)
    requires
        call_ensures(DictionaryStore::export_csv, (&dictionary,), csv),
        0 <= i < dictionary@.len(),
    ensures
        csv@ == csv_file(typed(dictionary@)),
        typed(dictionary@).len() == dictionary@.len(),
        typed(dictionary@)[i] == (dictionary@[i].term, dictionary@[i].misspelling),
{
}

} // verus!
