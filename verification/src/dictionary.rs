//! The personal dictionary: terms, which are spelling hints for the recogniser
//! and the cleanup prompt, and explicit wrong-to-right rules.

use vstd::prelude::*;

use crate::clock::now_utc;
use crate::ids::{new_v4, random_id};
use crate::prompt::first;
use crate::rank::{arranged, ints, order_of, ordered, picked};
use crate::replacement::{rule_views, Rule, RuleView};
use crate::text::{
    byte_len,
    chars_of,
    clipped,
    clipped_line,
    opt_text,
    same_text,
    single_line,
    string_of,
    texts,
    trim,
    trimmed,
    width_of,
};
use crate::unicode::{lowercase, to_lowercase};

verus! {

/// Longest term that is taken.
pub const MAX_TERM: usize = 60;

/// Ceiling on a single import, so that a pasted spreadsheet can't wedge the
/// program.
pub const MAX_IMPORT_ROWS: usize = 1000;

/// Most terms in the vocabulary.
pub const VOCABULARY_SIZE: usize = 100;

/// Most spellings in the prompt.
pub const SPELLING_COUNT: usize = 10;

#[derive(Debug)]
pub struct DictionaryEntry {
    pub id: u128,
    /// The correct term ("Kubernetes", "gRPC").
    pub term: String,
    /// A misspelling the model tends to produce ("cooper netties").
    pub misspelling: Option<String>,
    pub starred: bool,
    /// Nanoseconds since the Unix epoch.
    pub created_at: i128,
}

pub struct EntryView {
    pub id: u128,
    pub term: Seq<char>,
    pub misspelling: Option<Seq<char>>,
    pub starred: bool,
    pub created_at: int,
}

impl View for DictionaryEntry {
    type V = EntryView;

    open spec fn view(&self) -> EntryView {
        EntryView {
            id: self.id,
            term: self.term@,
            misspelling: opt_text(self.misspelling),
            starred: self.starred,
            created_at: self.created_at as int,
        }
    }
}

impl Clone for DictionaryEntry {
    fn clone(&self) -> (copy: Self)
        ensures
            copy@ == self@,
    {
        DictionaryEntry {
            id: self.id,
            term: self.term.clone(),
            misspelling: self.misspelling.clone(),
            starred: self.starred,
            created_at: self.created_at,
        }
    }
}

/// A misspelling with something in it.
pub open spec fn filled(m: Option<Seq<char>>) -> Option<Seq<char>> {
    match m {
        Some(m) => if m.len() > 0 {
            Some(m)
        } else {
            None
        },
        None => None,
    }
}

fn keep_filled(m: Option<String>) -> (out: Option<String>)
    ensures
        opt_text(out) == filled(opt_text(m)),
{
    match m {
        Some(m) => {
            if chars_of(m.as_str()).len() > 0 {
                Some(m)
            } else {
                None
            }
        },
        None => None,
    }
}

impl EntryView {
    /// A new entry.
    pub open spec fn fresh(
        term: Seq<char>,
        misspelling: Option<Seq<char>>,
        id: u128,
        created_at: int,
    ) -> EntryView {
        EntryView { id, term, misspelling: filled(misspelling), starred: false, created_at }
    }

    /// What the user typed, as export and import carry it.
    pub open spec fn typed(self) -> (Seq<char>, Option<Seq<char>>) {
        (self.term, self.misspelling)
    }
}

impl DictionaryEntry {
    /// A new entry with this identifier, made at this time.
    pub fn with_id(term: &str, misspelling: Option<String>, id: u128, created_at: i128) -> (
        entry: Self)
        ensures
            entry@ == EntryView::fresh(term@, opt_text(misspelling), id, created_at as int),
    {
        DictionaryEntry {
            id,
            term: term.to_owned(),
            misspelling: keep_filled(misspelling),
            starred: false,
            created_at,
        }
    }

    /// A new entry.
    pub fn new(term: &str, misspelling: Option<String>) -> (entry: Self)
        ensures
            entry@ == EntryView::fresh(
                term@,
                opt_text(misspelling),
                entry@.id,
                entry@.created_at,
            ),
            random_id(entry@.id),
    {
        Self::with_id(term, misspelling, new_v4(), now_utc())
    }
}

pub open spec fn entry_views(list: Seq<DictionaryEntry>) -> Seq<EntryView> {
    list.map_values(|e: DictionaryEntry| e@)
}

/// Whether a term, case aside, is in the list.
pub open spec fn known(entries: Seq<EntryView>, term: Seq<char>) -> bool {
    exists|i: int|
        0 <= i < entries.len() && lowercase((#[trigger] entries[i]).term) == lowercase(term)
}

/// Whether a term can be taken.
pub open spec fn fits(term: Seq<char>) -> bool {
    1 <= term.len() <= MAX_TERM
}

/// Whether a term that the user typed is taken.
pub open spec fn takes(entries: Seq<EntryView>, term: Seq<char>) -> bool {
    fits(trim(term)) && !known(entries, trim(term))
}

/// The entries with a typed term added, if it is taken.
pub open spec fn grown(
    entries: Seq<EntryView>,
    term: Seq<char>,
    misspelling: Option<Seq<char>>,
    id: u128,
    created_at: int,
) -> Seq<EntryView> {
    if takes(entries, term) {
        entries.push(
            EntryView::fresh(
                trim(term),
                match misspelling {
                    Some(m) => Some(trim(m)),
                    None => None,
                },
                id,
                created_at,
            ),
        )
    } else {
        entries
    }
}

/// The entries with the star of the first with this identifier turned over.
pub open spec fn restarred(entries: Seq<EntryView>, id: u128) -> Seq<EntryView> {
    Seq::new(
        entries.len(),
        |i: int|
            if entries[i].id == id && (forall|k: int|
                0 <= k < i ==> (#[trigger] entries[k]).id != id) {
                EntryView { starred: !entries[i].starred, ..entries[i] }
            } else {
                entries[i]
            },
    )
}

/// The entries without those of an identifier.
pub open spec fn without_id(entries: Seq<EntryView>, id: u128) -> Seq<EntryView> {
    picked(entries, |e: EntryView| e.id != id)
}

/// Keys that put the newest entry first.
pub open spec fn age_keys(entries: Seq<EntryView>) -> Seq<int> {
    entries.map_values(|e: EntryView| -1 - e.created_at)
}

/// The entries from the newest to the oldest.
pub open spec fn newest_first(entries: Seq<EntryView>) -> Seq<EntryView> {
    arranged(entries, ordered(age_keys(entries)))
}

/// The starred entries, then the others, each from the newest to the oldest.
pub open spec fn ranking(entries: Seq<EntryView>) -> Seq<EntryView> {
    picked(newest_first(entries), |e: EntryView| e.starred) + picked(
        newest_first(entries),
        |e: EntryView| !e.starred,
    )
}

pub open spec fn terms(entries: Seq<EntryView>) -> Seq<Seq<char>> {
    entries.map_values(|e: EntryView| e.term)
}

/// A term as it goes over the wire: on one line, not too long, trimmed.
pub open spec fn wire_form(term: Seq<char>) -> Seq<char> {
    trim(clipped(single_line(term), MAX_TERM as int))
}

/// The terms that fit in what is left of a budget of bytes, from the front. The
/// first that does not ends the list, so that what ranks first survives.
pub open spec fn fitting(list: Seq<Seq<char>>, used: int, budget: int) -> Seq<Seq<char>>
    decreases list.len(),
{
    if list.len() == 0 {
        Seq::empty()
    } else {
        let clean = wire_form(list[0]);
        let cost = byte_len(clean) + 1;
        if clean.len() == 0 {
            fitting(list.skip(1), used, budget)
        } else if used + cost > budget {
            Seq::empty()
        } else {
            seq![clean] + fitting(list.skip(1), used + cost, budget)
        }
    }
}

/// What a list of terms costs on the wire.
pub open spec fn wire_cost(list: Seq<Seq<char>>) -> int
    decreases list.len(),
{
    if list.len() == 0 {
        0
    } else {
        byte_len(list[0]) + 1 + wire_cost(list.skip(1))
    }
}

/// The entries that have a misspelling.
pub open spec fn misspelled(entries: Seq<EntryView>) -> Seq<EntryView> {
    picked(entries, |e: EntryView| filled(e.misspelling) is Some)
}

/// Wrong form and right form of an entry.
pub open spec fn spelling(e: EntryView) -> (Seq<char>, Seq<char>) {
    (e.misspelling->0, e.term)
}

pub open spec fn rule_of(e: EntryView) -> RuleView {
    RuleView { wrong: e.misspelling->0, right: e.term }
}

#[derive(Debug)]
pub struct DictionaryStore {
    pub entries: Vec<DictionaryEntry>,
}

impl View for DictionaryStore {
    type V = Seq<EntryView>;

    open spec fn view(&self) -> Seq<EntryView> {
        entry_views(self.entries@)
    }
}

fn copies(list: &Vec<DictionaryEntry>) -> (out: Vec<DictionaryEntry>)
    ensures
        entry_views(out@) == entry_views(list@),
{
    let mut out: Vec<DictionaryEntry> = Vec::new();
    let mut i: usize = 0;
    while i < list.len()
        invariant
            i <= list@.len(),
            out@.len() == i,
            forall|k: int| 0 <= k < i ==> (#[trigger] out@[k])@ == list@[k]@,
        decreases list@.len() - i,
    {
        out.push(list[i].clone());
        i += 1;
    }
    assert(entry_views(out@) =~= entry_views(list@));
    out
}

/// The entries that are starred, or those that are not.
fn starred_of(list: &Vec<DictionaryEntry>, starred: bool) -> (out: Vec<DictionaryEntry>)
    ensures
        entry_views(out@) == picked(entry_views(list@), |e: EntryView| e.starred == starred),
{
    let ghost all = entry_views(list@);
    let ghost passes = |e: EntryView| e.starred == starred;
    let mut out: Vec<DictionaryEntry> = Vec::new();
    let mut i: usize = 0;
    assert(all.take(0) =~= Seq::<EntryView>::empty());
    assert(entry_views(out@) =~= Seq::<EntryView>::empty());
    while i < list.len()
        invariant
            i <= list@.len(),
            all == entry_views(list@),
            passes == (|e: EntryView| e.starred == starred),
            entry_views(out@) == picked(all.take(i as int), passes),
        decreases list@.len() - i,
    {
        let ghost row = list@[i as int]@;
        proof {
            assert(all.take(i + 1).drop_last() =~= all.take(i as int));
            assert(all.take(i + 1).last() == row);
        }
        if list[i].starred == starred {
            let ghost before = out@;
            out.push(list[i].clone());
            assert(entry_views(out@) =~= entry_views(before).push(row));
        }
        i += 1;
    }
    assert(all.take(all.len() as int) =~= all);
    out
}

fn bytes_of(s: &Vec<char>) -> (n: u128)
    ensures
        n == byte_len(s@),
        n <= 4 * s@.len(),
{
    let mut n: u128 = 0;
    let mut i: usize = 0;
    assert(s@.take(0) =~= Seq::<char>::empty());
    while i < s.len()
        invariant
            i <= s@.len(),
            n == byte_len(s@.take(i as int)),
            n <= 4 * i,
        decreases s@.len() - i,
    {
        let w: usize = width_of(s[i]);
        assert(s@.take(i + 1).drop_last() =~= s@.take(i as int));
        n += w as u128;
        i += 1;
    }
    assert(s@.take(s@.len() as int) =~= s@);
    n
}

impl DictionaryStore {
    pub fn new(entries: Vec<DictionaryEntry>) -> (store: Self)
        ensures
            store@ == entry_views(entries@),
    {
        DictionaryStore { entries }
    }

    pub fn entries(&self) -> (list: Vec<DictionaryEntry>)
        ensures
            entry_views(list@) == self@,
    {
        copies(&self.entries)
    }

    pub fn save(&mut self, entries: Vec<DictionaryEntry>)
        ensures
            final(self)@ == entry_views(entries@),
    {
        self.entries = entries;
    }

    fn knows(&self, term: &str) -> (yes: bool)
        ensures
            yes == known(self@, term@),
    {
        let lowered = to_lowercase(term);
        let mut i: usize = 0;
        while i < self.entries.len()
            invariant
                i <= self.entries@.len(),
                lowered@ == lowercase(term@),
                forall|k: int|
                    0 <= k < i ==> lowercase((#[trigger] self@[k]).term) != lowercase(term@),
            decreases self.entries@.len() - i,
        {
            let here = to_lowercase(self.entries[i].term.as_str());
            assert(self@[i as int].term == self.entries@[i as int].term@);
            if same_text(here.as_str(), lowered.as_str()) {
                assert(lowercase(self@[i as int].term) == lowercase(term@));
                return true;
            }
            i += 1;
        }
        false
    }

    /// Adds a term with this identifier, made at this time. Returns false, and
    /// adds nothing, when the term is out of range or already present.
    pub fn add_entry(
        &mut self,
        term: &str,
        misspelling: Option<&str>,
        id: u128,
        created_at: i128,
    ) -> (added: bool)
        ensures
            added == takes(old(self)@, term@),
            final(self)@ == grown(
                old(self)@,
                term@,
                (match misspelling {
                    Some(m) => Some(m@),
                    None => None,
                }),
                id,
                created_at as int,
            ),
    {
        let kept = trimmed(&chars_of(term));
        if kept.len() == 0 || kept.len() > MAX_TERM {
            return false;
        }
        let kept = string_of(&kept);
        if self.knows(kept.as_str()) {
            return false;
        }
        let wrong: Option<String> = match misspelling {
            Some(m) => Some(string_of(&trimmed(&chars_of(m)))),
            None => None,
        };
        let entry = DictionaryEntry::with_id(kept.as_str(), wrong, id, created_at);
        let ghost added = entry@;
        self.entries.push(entry);
        assert(self@ =~= old(self)@.push(added));
        true
    }

    /// Adds a term. Returns false when it is out of range or already present.
    pub fn add(&mut self, term: &str, misspelling: Option<&str>) -> (added: bool)
        ensures
            added == (fits(trim(term@)) && !known(old(self)@, trim(term@))),
            added ==> ({
                let entry = final(self)@.last();
                &&& final(self)@ == old(self)@.push(entry)
                &&& entry == EntryView::fresh(
                    trim(term@),
                    match misspelling {
                        Some(m) => Some(trim(m@)),
                        None => None,
                    },
                    entry.id,
                    entry.created_at,
                )
                &&& random_id(entry.id)
            }),
            !added ==> final(self)@ == old(self)@,
    {
        self.add_entry(term, misspelling, new_v4(), now_utc())
    }

    /// Drops every entry with this identifier.
    pub fn remove(&mut self, id: u128)
        ensures
            final(self)@ == without_id(old(self)@, id),
    {
        let ghost all = self@;
        let ghost passes = |e: EntryView| e.id != id;
        let mut kept: Vec<DictionaryEntry> = Vec::new();
        let mut i: usize = 0;
        assert(all.take(0) =~= Seq::<EntryView>::empty());
        assert(entry_views(kept@) =~= Seq::<EntryView>::empty());
        while i < self.entries.len()
            invariant
                i <= self.entries@.len(),
                all == self@,
                passes == (|e: EntryView| e.id != id),
                entry_views(kept@) == picked(all.take(i as int), passes),
            decreases self.entries@.len() - i,
        {
            let ghost row = self.entries@[i as int]@;
            proof {
                assert(all.take(i + 1).drop_last() =~= all.take(i as int));
                assert(all.take(i + 1).last() == row);
            }
            if self.entries[i].id != id {
                let ghost before = kept@;
                kept.push(self.entries[i].clone());
                assert(entry_views(kept@) =~= entry_views(before).push(row));
            }
            i += 1;
        }
        assert(all.take(all.len() as int) =~= all);
        self.entries = kept;
    }

    /// Stars the entry with this identifier, or takes its star away. Of several
    /// the first; without one nothing changes.
    pub fn toggle_star(&mut self, id: u128)
        ensures
            final(self)@.len() == old(self)@.len(),
            forall|i: int|
                0 <= i < old(self)@.len() ==> #[trigger] final(self)@[i] == restarred(
                    old(self)@,
                    id,
                )[i],
    {
        let mut i: usize = 0;
        while i < self.entries.len()
            invariant
                i <= self.entries@.len(),
                self@ == old(self)@,
                forall|k: int| 0 <= k < i ==> (#[trigger] self@[k]).id != id,
            decreases self.entries@.len() - i,
        {
            assert(self@[i as int] == self.entries@[i as int]@);
            if self.entries[i].id == id {
                let mut entry = self.entries[i].clone();
                entry.starred = !entry.starred;
                let ghost toggled = entry@;
                self.entries.set(i, entry);
                assert(self@ =~= old(self)@.update(i as int, toggled));
                return;
            }
            i += 1;
        }
    }

    fn newest(&self) -> (list: Vec<DictionaryEntry>)
        ensures
            entry_views(list@) == newest_first(self@),
    {
        let mut keys: Vec<i128> = Vec::new();
        let mut i: usize = 0;
        while i < self.entries.len()
            invariant
                i <= self.entries@.len(),
                keys@.len() == i,
                forall|k: int|
                    0 <= k < i ==> #[trigger] keys@[k] == -1 - self.entries@[k].created_at,
            decreases self.entries@.len() - i,
        {
            keys.push(-1 - self.entries[i].created_at);
            i += 1;
        }
        assert(keys@.map_values(|k: i128| k as int) =~= age_keys(self@));
        let order = order_of(&keys);
        let mut list: Vec<DictionaryEntry> = Vec::new();
        let mut j: usize = 0;
        proof {
            assert forall|k: int| 0 <= k < order@.len() implies (#[trigger] order@[k])
                < self.entries@.len() by {
                assert(ints(order@)[k] == order@[k] as int);
            }
        }
        while j < order.len()
            invariant
                j <= order@.len(),
                list@.len() == j,
                forall|k: int| 0 <= k < order@.len() ==> (#[trigger] order@[k]) < self.entries@.len(),
                forall|k: int|
                    0 <= k < j ==> (#[trigger] list@[k])@ == self.entries@[order@[k] as int]@,
            decreases order@.len() - j,
        {
            list.push(self.entries[order[j]].clone());
            j += 1;
        }
        assert(entry_views(list@) =~= arranged(self@, ints(order@)));
        list
    }

    /// Starred first, then newest.
    fn ranked(&self) -> (list: Vec<DictionaryEntry>)
        ensures
            entry_views(list@) == ranking(self@),
    {
        let all = self.newest();
        let mut list = starred_of(&all, true);
        let mut rest = starred_of(&all, false);
        let ghost head = list@;
        let ghost tail = rest@;
        list.append(&mut rest);
        proof {
            assert(entry_views(list@) =~= entry_views(head) + entry_views(tail));
            assert((|e: EntryView| e.starred == true) =~= (|e: EntryView| e.starred));
            assert((|e: EntryView| e.starred == false) =~= (|e: EntryView| !e.starred));
        }
        list
    }

    /// Vocabulary for the cleanup prompt: starred first, then newest.
    pub fn vocabulary(&self) -> (list: Vec<String>)
        ensures
            texts(list@) == first(terms(ranking(self@)), VOCABULARY_SIZE as int),
    {
        let all = self.ranked();
        let mut list: Vec<String> = Vec::new();
        let mut i: usize = 0;
        while i < all.len() && i < VOCABULARY_SIZE
            invariant
                i <= all@.len(),
                i <= VOCABULARY_SIZE,
                list@.len() == i,
                forall|k: int| 0 <= k < i ==> (#[trigger] list@[k])@ == all@[k]@.term,
            decreases all@.len() - i,
        {
            list.push(all[i].term.clone());
            i += 1;
        }
        assert(texts(list@) =~= first(terms(entry_views(all@)), VOCABULARY_SIZE as int));
        list
    }

    /// Vocabulary as it goes over the wire, for the prompt and for the request
    /// alike, within `max_bytes`. Only correct terms: biasing a recogniser toward
    /// a misspelling is harmful.
    pub fn sanitized_vocabulary(&self, max_bytes: usize) -> (out: Vec<String>)
        ensures
            texts(out@) == fitting(
                first(terms(ranking(self@)), VOCABULARY_SIZE as int),
                0,
                max_bytes as int,
            ),
    {
        let list = self.vocabulary();
        let ghost all = texts(list@);
        let ghost goal = fitting(all, 0, max_bytes as int);
        let mut used: u128 = 0;
        let mut out: Vec<String> = Vec::new();
        let mut i: usize = 0;
        proof {
            assert(all.skip(0) =~= all);
            assert(texts(out@) =~= Seq::<Seq<char>>::empty());
            assert(Seq::<Seq<char>>::empty() + goal =~= goal);
        }
        while i < list.len()
            invariant
                i <= list@.len(),
                all == texts(list@),
                used <= max_bytes,
                goal == texts(out@) + fitting(all.skip(i as int), used as int, max_bytes as int),
            ensures
                goal == texts(out@),
            decreases list@.len() - i,
        {
            let clean = trimmed(&clipped_line(&chars_of(list[i].as_str()), MAX_TERM));
            let ghost rest = all.skip(i as int);
            proof {
                assert(rest[0] == list@[i as int]@);
                assert(clean@ == wire_form(rest[0]));
                assert(rest.skip(1) =~= all.skip(i + 1));
            }
            if clean.len() > 0 {
                let cost: u128 = bytes_of(&clean) + 1;
                if cost > max_bytes as u128 - used {
                    // Cut off at the end: what ranks first survives.
                    assert(fitting(rest, used as int, max_bytes as int)
                        =~= Seq::<Seq<char>>::empty());
                    assert(texts(out@) + Seq::<Seq<char>>::empty() =~= texts(out@));
                    break;
                }
                let ghost before = out@;
                let ghost added = clean@;
                out.push(string_of(&clean));
                proof {
                    let tail = fitting(all.skip(i + 1), used + cost, max_bytes as int);
                    assert(texts(out@) =~= texts(before).push(added));
                    assert(texts(before) + (seq![added] + tail) =~= texts(out@) + tail);
                }
                used += cost;
            }
            i += 1;
            proof {
                if i == list@.len() {
                    assert(all.skip(i as int) =~= Seq::<Seq<char>>::empty());
                    assert(texts(out@) + Seq::<Seq<char>>::empty() =~= texts(out@));
                }
            }
        }
        out
    }

    /// Spelling hints for the prompt, starred first, then newest.
    pub fn spellings(&self) -> (list: Vec<(String, String)>)
        ensures
            crate::prompt::pairs(list@) == first(
                misspelled(ranking(self@)).map_values(|e: EntryView| spelling(e)),
                SPELLING_COUNT as int,
            ),
    {
        let all = self.ranked();
        let found = misspelled_of(&all);
        let mut list: Vec<(String, String)> = Vec::new();
        let mut i: usize = 0;
        while i < found.len() && i < SPELLING_COUNT
            invariant
                i <= found@.len(),
                i <= SPELLING_COUNT,
                list@.len() == i,
                forall|k: int|
                    0 <= k < found@.len() ==> (#[trigger] found@[k])@.misspelling is Some,
                forall|k: int|
                    0 <= k < i ==> ((#[trigger] list@[k]).0@, list@[k].1@) == spelling(
                        found@[k]@,
                    ),
            decreases found@.len() - i,
        {
            assert(found@[i as int]@.misspelling is Some);
            let wrong = match &found[i].misspelling {
                Some(m) => m.clone(),
                None => String::new(),
            };
            list.push((wrong, found[i].term.clone()));
            i += 1;
        }
        assert(crate::prompt::pairs(list@) =~= first(
            entry_views(found@).map_values(|e: EntryView| spelling(e)),
            SPELLING_COUNT as int,
        ));
        list
    }

    /// Rules for the replacement engine: every entry with a misspelling.
    pub fn replacement_rules(&self) -> (rules: Vec<Rule>)
        ensures
            rule_views(rules@) == misspelled(self@).map_values(|e: EntryView| rule_of(e)),
    {
        let found = misspelled_of(&self.entries);
        let mut rules: Vec<Rule> = Vec::new();
        let mut i: usize = 0;
        while i < found.len()
            invariant
                i <= found@.len(),
                rules@.len() == i,
                forall|k: int|
                    0 <= k < found@.len() ==> (#[trigger] found@[k])@.misspelling is Some,
                forall|k: int| 0 <= k < i ==> (#[trigger] rules@[k])@ == rule_of(found@[k]@),
            decreases found@.len() - i,
        {
            assert(found@[i as int]@.misspelling is Some);
            let wrong = match &found[i].misspelling {
                Some(m) => m.clone(),
                None => String::new(),
            };
            rules.push(Rule::new(wrong.as_str(), found[i].term.as_str()));
            i += 1;
        }
        assert(rule_views(rules@) =~= entry_views(found@).map_values(
            |e: EntryView| rule_of(e),
        ));
        rules
    }
}

/// The entries with a misspelling.
fn misspelled_of(list: &Vec<DictionaryEntry>) -> (out: Vec<DictionaryEntry>)
    ensures
        entry_views(out@) == misspelled(entry_views(list@)),
        forall|k: int| 0 <= k < out@.len() ==> (#[trigger] out@[k])@.misspelling is Some,
{
    let ghost all = entry_views(list@);
    let ghost passes = |e: EntryView| filled(e.misspelling) is Some;
    let mut out: Vec<DictionaryEntry> = Vec::new();
    let mut i: usize = 0;
    assert(all.take(0) =~= Seq::<EntryView>::empty());
    assert(entry_views(out@) =~= Seq::<EntryView>::empty());
    while i < list.len()
        invariant
            i <= list@.len(),
            all == entry_views(list@),
            passes == (|e: EntryView| filled(e.misspelling) is Some),
            entry_views(out@) == picked(all.take(i as int), passes),
            forall|k: int| 0 <= k < out@.len() ==> (#[trigger] out@[k])@.misspelling is Some,
        decreases list@.len() - i,
    {
        let ghost row = list@[i as int]@;
        proof {
            assert(all.take(i + 1).drop_last() =~= all.take(i as int));
            assert(all.take(i + 1).last() == row);
        }
        let has = match &list[i].misspelling {
            Some(m) => chars_of(m.as_str()).len() > 0,
            None => false,
        };
        if has {
            let ghost before = out@;
            out.push(list[i].clone());
            assert(entry_views(out@) =~= entry_views(before).push(row));
        }
        i += 1;
    }
    assert(all.take(all.len() as int) =~= all);
    out
}

/// Whatever a dictionary holds, what goes over the wire fits its budget, and no
/// term in it breaks a line, is empty or is longer than the limit.
pub proof fn wire_terms_are_safe(list: Seq<Seq<char>>, used: int, budget: int)
    requires
        0 <= used <= budget,
    ensures
        used + wire_cost(fitting(list, used, budget)) <= budget,
        forall|i: int|
            0 <= i < fitting(list, used, budget).len() ==> {
                let term = #[trigger] fitting(list, used, budget)[i];
                crate::prompt::on_one_line(term) && 0 < term.len() <= MAX_TERM
            },
    decreases list.len(),
{
    if list.len() > 0 {
        let clean = wire_form(list[0]);
        let cost = byte_len(clean) + 1;
        if clean.len() == 0 {
            wire_terms_are_safe(list.skip(1), used, budget);
        } else if used + cost <= budget {
            wire_terms_are_safe(list.skip(1), used + cost, budget);
            let tail = fitting(list.skip(1), used + cost, budget);
            let all = fitting(list, used, budget);
            assert(all.skip(1) =~= tail);
            lemma_wire_form(list[0]);
            assert forall|i: int| 0 <= i < all.len() implies ({
                let term = #[trigger] all[i];
                crate::prompt::on_one_line(term) && 0 < term.len() <= MAX_TERM
            }) by {
                if i > 0 {
                    assert(all[i] == tail[i - 1]);
                }
            }
        }
    }
}

proof fn lemma_wire_form(term: Seq<char>)
    ensures
        crate::prompt::on_one_line(wire_form(term)),
        wire_form(term).len() <= MAX_TERM,
{
    let line = clipped(single_line(term), MAX_TERM as int);
    assert(crate::prompt::on_one_line(line)) by {
        assert forall|i: int| 0 <= i < line.len() implies #[trigger] line[i] != '\n' && line[i]
            != '\r' by {
            assert(line[i] == single_line(term)[i]);
        }
    }
    crate::text::lemma_trim_is_settled(line);
    let (from, to) = crate::text::lemma_trim_is_part(line);
    let t = trim(line);
    assert forall|i: int| 0 <= i < t.len() implies #[trigger] t[i] != '\n' && t[i] != '\r' by {
        assert(t[i] == line[from + i]);
    }
}

/// A starred entry ranks before every entry that is not.
pub proof fn starred_entries_rank_first(entries: Seq<EntryView>, i: int, j: int)
    requires
        0 <= i < j < ranking(entries).len(),
        ranking(entries)[j].starred,
    ensures
        ranking(entries)[i].starred,
{
    let sorted = newest_first(entries);
    let yes = |e: EntryView| e.starred;
    let no = |e: EntryView| !e.starred;
    crate::rank::lemma_picked(sorted, yes);
    crate::rank::lemma_picked(sorted, no);
    let head = picked(sorted, yes);
    if j >= head.len() {
        assert(no(picked(sorted, no)[j - head.len()]));
    } else {
        assert(yes(picked(sorted, yes)[i]));
    }
}

/// A term is taken exactly if, without the white space around it, it has one to
/// sixty characters and no entry has it already, case aside. Then it is the last
/// entry, unstarred, with its misspelling trimmed and dropped if that leaves
/// nothing; and every other entry stays.
pub proof fn a_new_term_is_the_last_entry(
    entries: Seq<EntryView>,
    term: Seq<char>,
    misspelling: Option<Seq<char>>,
    id: u128,
    created_at: int,
)
    ensures
        ({
            let after = grown(entries, term, misspelling, id, created_at);
            let new = 1 <= trim(term).len() <= 60 && (forall|i: int|
                0 <= i < entries.len() ==> lowercase((#[trigger] entries[i]).term) != lowercase(
                    trim(term),
                ));
            &&& takes(entries, term) <==> new
            &&& !new ==> after == entries
            &&& new ==> {
                let entry = after.last();
                &&& after.len() == entries.len() + 1
                &&& after.drop_last() == entries
                &&& entry.term == trim(term)
                &&& entry.id == id
                &&& entry.created_at == created_at
                &&& !entry.starred
                &&& misspelling is None ==> entry.misspelling is None
                &&& misspelling matches Some(m) ==> (entry.misspelling == (if trim(m).len() == 0 {
                    None
                } else {
                    Some(trim(m))
                }))
            }
        }),
{
    let after = grown(entries, term, misspelling, id, created_at);
    if takes(entries, term) {
        assert(after.drop_last() =~= entries);
    }
}

/// The ranking is the whole dictionary: every entry is in it, and nothing else.
pub proof fn the_ranking_leaves_nothing_out(entries: Seq<EntryView>, e: EntryView)
    ensures
        ranking(entries).contains(e) <==> entries.contains(e),
{
    let keys = age_keys(entries);
    let order = ordered(keys);
    let sorted = newest_first(entries);
    let yes = |e: EntryView| e.starred;
    let no = |e: EntryView| !e.starred;
    let all = ranking(entries);
    let head = picked(sorted, yes);
    let tail = picked(sorted, no);
    crate::rank::lemma_ordered(keys);
    crate::rank::lemma_picked(sorted, yes);
    crate::rank::lemma_picked(sorted, no);
    if entries.contains(e) {
        let i = choose|i: int| 0 <= i < entries.len() && entries[i] == e;
        crate::rank::an_order_lists_every_position(keys, order, i);
        let k = choose|k: int| 0 <= k < order.len() && order[k] == i;
        assert(sorted[k] == e);
        if e.starred {
            crate::rank::lemma_picks_all(sorted, yes, k);
            let at = choose|at: int| 0 <= at < head.len() && head[at] == e;
            assert(all[at] == e);
        } else {
            crate::rank::lemma_picks_all(sorted, no, k);
            let at = choose|at: int| 0 <= at < tail.len() && tail[at] == e;
            assert(all[head.len() + at] == e);
        }
    }
    if all.contains(e) {
        let at = choose|at: int| 0 <= at < all.len() && all[at] == e;
        if at < head.len() {
            assert(sorted.contains(head[at]));
        } else {
            assert(sorted.contains(tail[at - head.len()]));
        }
        let k = choose|k: int| 0 <= k < sorted.len() && sorted[k] == e;
        assert(entries[order[k]] == e);
    }
}

proof fn lemma_age_kept(list: Seq<EntryView>, passes: spec_fn(EntryView) -> bool)
    requires
        forall|i: int, j: int|
            0 <= i < j < list.len() ==> (#[trigger] list[i]).created_at >= (
            #[trigger] list[j]).created_at,
    ensures
        forall|i: int, j: int|
            0 <= i < j < picked(list, passes).len() ==> (#[trigger] picked(
                list,
                passes,
            )[i]).created_at >= (#[trigger] picked(list, passes)[j]).created_at,
    decreases list.len(),
{
    if list.len() > 0 {
        let rest = list.drop_last();
        lemma_age_kept(rest, passes);
        crate::rank::lemma_picked(rest, passes);
        let some = picked(rest, passes);
        let all = picked(list, passes);
        assert forall|i: int, j: int| 0 <= i < j < all.len() implies (
        #[trigger] all[i]).created_at >= (#[trigger] all[j]).created_at by {
            assert(all[i] == some[i]);
            if j < some.len() {
                assert(all[j] == some[j]);
            } else {
                assert(rest.contains(some[i]));
                let k = choose|k: int| 0 <= k < rest.len() && rest[k] == some[i];
                assert(list[k] == some[i]);
                assert(list[list.len() - 1] == all[j]);
            }
        }
    }
}

/// Of two entries that are both starred, or both not, the newer ranks first.
pub proof fn newer_entries_rank_first(entries: Seq<EntryView>, i: int, j: int)
    requires
        0 <= i < j < ranking(entries).len(),
        ranking(entries)[i].starred == ranking(entries)[j].starred,
    ensures
        ranking(entries)[i].created_at >= ranking(entries)[j].created_at,
{
    let keys = age_keys(entries);
    let order = ordered(keys);
    let sorted = newest_first(entries);
    let yes = |e: EntryView| e.starred;
    let no = |e: EntryView| !e.starred;
    let all = ranking(entries);
    let head = picked(sorted, yes);
    let tail = picked(sorted, no);
    crate::rank::lemma_ordered(keys);
    crate::rank::lemma_picked(sorted, yes);
    crate::rank::lemma_picked(sorted, no);
    assert forall|a: int, b: int| 0 <= a < b < sorted.len() implies (
    #[trigger] sorted[a]).created_at >= (#[trigger] sorted[b]).created_at by {
        assert(crate::rank::precedes(keys, order[a], order[b]));
        assert(keys[order[a]] == -1 - entries[order[a]].created_at);
        assert(keys[order[b]] == -1 - entries[order[b]].created_at);
    }
    lemma_age_kept(sorted, yes);
    lemma_age_kept(sorted, no);
    if j < head.len() {
        assert(all[i] == head[i] && all[j] == head[j]);
    } else if i >= head.len() {
        assert(all[i] == tail[i - head.len()] && all[j] == tail[j - head.len()]);
    } else {
        assert(yes(head[i]) && no(tail[j - head.len()]));
        assert(all[i] == head[i] && all[j] == tail[j - head.len()]);
    }
}

/// Where there is room for all of them, every term goes over the wire, in order.
pub proof fn what_fits_goes_over_the_wire(list: Seq<Seq<char>>, used: int, budget: int)
    requires
        forall|i: int| 0 <= i < list.len() ==> wire_form(#[trigger] list[i]).len() > 0,
        used + wire_cost(list.map_values(|t: Seq<char>| wire_form(t))) <= budget,
    ensures
        fitting(list, used, budget) == list.map_values(|t: Seq<char>| wire_form(t)),
    decreases list.len(),
{
    let all = list.map_values(|t: Seq<char>| wire_form(t));
    if list.len() > 0 {
        let rest = list.skip(1);
        let clean = wire_form(list[0]);
        let cost = byte_len(clean) + 1;
        assert(all.skip(1) =~= rest.map_values(|t: Seq<char>| wire_form(t)));
        assert forall|i: int| 0 <= i < rest.len() implies wire_form(#[trigger] rest[i]).len()
            > 0 by {
            assert(rest[i] == list[i + 1]);
        }
        assert(clean.len() > 0);
        lemma_wire_cost(all.skip(1));
        what_fits_goes_over_the_wire(rest, used + cost, budget);
        assert(seq![clean] + all.skip(1) =~= all);
    } else {
        assert(all =~= Seq::<Seq<char>>::empty());
    }
}

proof fn lemma_wire_cost(list: Seq<Seq<char>>)
    ensures
        wire_cost(list) >= 0,
    decreases list.len(),
{
    if list.len() > 0 {
        lemma_wire_cost(list.skip(1));
    }
}

/// A term that was taken goes over the wire as it is, if it has no line break.
pub proof fn a_term_goes_as_it_is(term: Seq<char>)
    requires
        1 <= term.len() <= 60,
        trim(term) == term,
        forall|i: int| 0 <= i < term.len() ==> #[trigger] term[i] != '\n' && term[i] != '\r',
    ensures
        wire_form(term) == term,
{
    assert(single_line(term) =~= term);
}

/// Whatever the dictionary holds, its highest-ranking term is on the wire: with
/// the budget of a request, one term always fits.
pub proof fn the_first_term_is_always_sent(entries: Seq<EntryView>)
    requires
        entries.len() > 0,
        wire_form(ranking(entries)[0].term).len() > 0,
        ranking(entries).len() > 0,
    ensures
        ({
            let sent = fitting(
                first(terms(ranking(entries)), VOCABULARY_SIZE as int),
                0,
                2_048,
            );
            sent.len() > 0 && sent[0] == wire_form(ranking(entries)[0].term)
        }),
        VOCABULARY_SIZE == 100,
{
    let list = first(terms(ranking(entries)), VOCABULARY_SIZE as int);
    assert(list[0] == ranking(entries)[0].term);
    lemma_wire_form(list[0]);
    lemma_bytes(wire_form(list[0]));
}

proof fn lemma_bytes(s: Seq<char>)
    ensures
        byte_len(s) <= 4 * s.len(),
    decreases s.len(),
{
    if s.len() > 0 {
        lemma_bytes(s.drop_last());
    }
}

/// Every entry with a misspelling is a rule from the misspelling to the term, and
/// every rule is one of these.
pub proof fn every_misspelling_is_a_rule(entries: Seq<EntryView>, i: int)
    requires
        0 <= i < entries.len(),
    ensures
        ({
            let rules = misspelled(entries).map_values(|e: EntryView| rule_of(e));
            &&& (entries[i].misspelling matches Some(m) && m.len() > 0) ==> rules.contains(
                RuleView { wrong: entries[i].misspelling->0, right: entries[i].term },
            )
            &&& forall|k: int|
                0 <= k < rules.len() ==> exists|j: int|
                    0 <= j < entries.len() && (#[trigger] entries[j]).misspelling == Some(
                        (#[trigger] rules[k]).wrong,
                    ) && entries[j].term == rules[k].right && rules[k].wrong.len() > 0
        }),
{
    let passes = |e: EntryView| filled(e.misspelling) is Some;
    let some = misspelled(entries);
    let rules = some.map_values(|e: EntryView| rule_of(e));
    crate::rank::lemma_picked(entries, passes);
    if entries[i].misspelling matches Some(m) && m.len() > 0 {
        crate::rank::lemma_picks_all(entries, passes, i);
        let k = choose|k: int| 0 <= k < some.len() && some[k] == entries[i];
        assert(rules[k] == rule_of(entries[i]));
    }
    assert forall|k: int| 0 <= k < rules.len() implies exists|j: int|
        0 <= j < entries.len() && (#[trigger] entries[j]).misspelling == Some(
            (#[trigger] rules[k]).wrong,
        ) && entries[j].term == rules[k].right && rules[k].wrong.len() > 0 by {
        assert(passes(some[k]) && entries.contains(some[k]));
        let j = choose|j: int| 0 <= j < entries.len() && entries[j] == some[k];
        assert(entries[j].misspelling == Some(rules[k].wrong));
    }
}

/// A star is turned over, and turning it over twice changes nothing; an entry of
/// another identifier keeps its own.
pub proof fn a_star_is_turned_over(entries: Seq<EntryView>, id: u128, i: int)
    requires
        0 <= i < entries.len(),
    ensures
        restarred(restarred(entries, id), id) == entries,
        entries[i].id != id ==> restarred(entries, id)[i] == entries[i],
        entries[i].id == id && (forall|k: int| 0 <= k < i ==> (#[trigger] entries[k]).id != id)
            ==> restarred(entries, id)[i] == (EntryView {
            starred: !entries[i].starred,
            ..entries[i]
        }),
{
    let once = restarred(entries, id);
    let twice = restarred(once, id);
    assert forall|k: int| 0 <= k < entries.len() implies once[k].id == entries[k].id by {}
    assert forall|k: int| 0 <= k < entries.len() implies twice[k] == entries[k] by {
        if entries[k].id == id && (forall|j: int| 0 <= j < k ==> (#[trigger] entries[j]).id != id) {
            assert(forall|j: int| 0 <= j < k ==> (#[trigger] once[j]).id != id);
            assert(once[k] == (EntryView { starred: !entries[k].starred, ..entries[k] }));
        } else if entries[k].id == id {
            let j = choose|j: int| 0 <= j < k && (#[trigger] entries[j]).id == id;
            assert(once[j].id == id);
            assert(once[k] == entries[k]);
        }
    }
    assert(twice =~= entries);
}

/// Removing an identifier takes every entry of it away, and no other.
pub proof fn removing_takes_only_its_own(entries: Seq<EntryView>, id: u128, e: EntryView)
    ensures
        without_id(entries, id).contains(e) <==> entries.contains(e) && e.id != id,
{
    let passes = |e: EntryView| e.id != id;
    let kept = without_id(entries, id);
    crate::rank::lemma_picked(entries, passes);
    if kept.contains(e) {
        let k = choose|k: int| 0 <= k < kept.len() && kept[k] == e;
        assert(passes(kept[k]));
    }
    if entries.contains(e) && e.id != id {
        let k = choose|k: int| 0 <= k < entries.len() && entries[k] == e;
        crate::rank::lemma_picks_all(entries, passes, k);
    }
}

/// The list on the wire is cut off where it is full, so that what ranks first
/// survives: a term that does not fit ends it, and one that does is followed by
/// what fits behind it. A term with nothing in it is passed over.
pub proof fn a_full_wire_cuts_the_list_off(
    term: Seq<char>,
    rest: Seq<Seq<char>>,
    used: int,
    budget: int,
)
    ensures
        ({
            let clean = wire_form(term);
            let cost = byte_len(clean) + 1;
            let sent = fitting(seq![term] + rest, used, budget);
            &&& clean.len() == 0 ==> sent == fitting(rest, used, budget)
            &&& clean.len() > 0 && used + cost > budget ==> sent.len() == 0
            &&& clean.len() > 0 && used + cost <= budget ==> sent.len() > 0 && sent[0] == clean
                && sent.skip(1) == fitting(rest, used + cost, budget)
        }),
{
    let list = seq![term] + rest;
    assert(list[0] == term);
    assert(list.skip(1) =~= rest);
    let clean = wire_form(term);
    let cost = byte_len(clean) + 1;
    if clean.len() > 0 && used + cost <= budget {
        assert(fitting(list, used, budget).skip(1) =~= fitting(rest, used + cost, budget));
    }
}

} // verus!
