//! Password-export converters: a common entry type, the converter
//! interface, an in-memory manager keyed by entry titles, and the
//! line format of one vendor's export.
//!
//! An export is a run of `key: value` lines; every `---` line closes
//! the entry accumulated so far, whose first three values are the url,
//! the login and the password.  An entry's title is
//! `url (login)`, and the rendered output is one CSV line per entry
//! under a fixed header.

use crate::text::{
    chars_of, contains_char, find_first, lemma_find_first_at, lemma_find_first_none,
    string_from_chars, sub_chars, trim_chars, trim_spec, find_char_from,
};
use vstd::pervasive::VecAdditionalExecFns;
use vstd::prelude::*;
use vstd::string::StringExecFns;

verus! {

/// One stored credential.
pub struct PasswordEntry {
    pub url: String,
    pub login: String,
    pub password: String,
}

/// The mathematical value of an entry: its three texts.
pub struct PasswordEntryV {
    pub url: Seq<char>,
    pub login: Seq<char>,
    pub password: Seq<char>,
}

impl View for PasswordEntry {
    type V = PasswordEntryV;

    open spec fn view(&self) -> PasswordEntryV {
        PasswordEntryV { url: self.url@, login: self.login@, password: self.password@ }
    }
}

impl PasswordEntry {
    pub fn from(url: String, login: String, password: String) -> (r: PasswordEntry)
        ensures
            r@.url == url@,
            r@.login == login@,
            r@.password == password@,
    {
        PasswordEntry { url, login, password }
    }
}

/// The interface every password format converter offers.
pub trait Converter {
    /// Converts passwords from the source format to the target one.
    fn convert(&mut self) -> Result<(), std::io::Error>;
}

/// I/O errors pass through `convert` unchanged; nothing is assumed of
/// them.
#[verifier::external_type_specification]
#[verifier::external_body]
pub struct ExIoError(std::io::Error);

/// The title under which an entry is stored: `url (login)`.
pub open spec fn title_spec(url: Seq<char>, login: Seq<char>) -> Seq<char> {
    url + " ("@ + login + ")"@
}

/// The titled entries as a map, later insertions overriding earlier
/// ones.
pub open spec fn entries_map(es: Seq<(String, PasswordEntry)>) -> Map<Seq<char>, PasswordEntryV>
    decreases es.len(),
{
    if es.len() == 0 {
        Map::empty()
    } else {
        entries_map(es.drop_last()).insert(es.last().0@, es.last().1@)
    }
}

/// Each title occurs at most once.
pub open spec fn unique_titles(es: Seq<(String, PasswordEntry)>) -> bool {
    forall|i: int, j: int| 0 <= i < j < es.len() ==> es[i].0@ != es[j].0@
}

/// Builds `url (login)`.
fn make_title(url: &String, login: &String) -> (r: String)
    ensures
        r@ == title_spec(url@, login@),
{
    let mut r = url.clone();
    r.append(" (");
    r.append(login.as_str());
    r.append(")");
    r
}

proof fn lemma_entries_map_key(es: Seq<(String, PasswordEntry)>, i: int)
    requires
        0 <= i < es.len(),
    ensures
        entries_map(es).contains_key(es[i].0@),
    decreases es.len(),
{
    if i < es.len() - 1 {
        lemma_entries_map_key(es.drop_last(), i);
    }
}

proof fn lemma_entries_map_key_exists(es: Seq<(String, PasswordEntry)>, k: Seq<char>)
    requires
        entries_map(es).contains_key(k),
    ensures
        exists|j: int| 0 <= j < es.len() && #[trigger] es[j].0@ == k,
    decreases es.len(),
{
    if es.len() > 0 && es.last().0@ != k {
        lemma_entries_map_key_exists(es.drop_last(), k);
        let j = choose|j: int|
            0 <= j < es.drop_last().len() && #[trigger] es.drop_last()[j].0@ == k;
        assert(es[j].0@ == k);
    }
}

proof fn lemma_entries_map_update(
    es: Seq<(String, PasswordEntry)>,
    up: Seq<(String, PasswordEntry)>,
    i: int,
)
    requires
        0 <= i < es.len(),
        unique_titles(es),
        up.len() == es.len(),
        forall|j: int| 0 <= j < es.len() && j != i ==> up[j] == es[j],
        up[i].0@ == es[i].0@,
    ensures
        entries_map(up) == entries_map(es).insert(up[i].0@, up[i].1@),
        unique_titles(up),
    decreases es.len(),
{
    assert forall|a: int, b: int| 0 <= a < b < up.len() implies up[a].0@ != up[b].0@ by {
        assert(up[a].0@ == es[a].0@ && up[b].0@ == es[b].0@);
    }
    if i == es.len() - 1 {
        assert(up.drop_last() =~= es.drop_last());
        assert(entries_map(up) == entries_map(es.drop_last()).insert(up[i].0@, up[i].1@));
        assert(entries_map(es.drop_last()).insert(es[i].0@, es[i].1@).insert(up[i].0@, up[i].1@)
            =~= entries_map(es.drop_last()).insert(up[i].0@, up[i].1@));
    } else {
        assert(unique_titles(es.drop_last()));
        assert(forall|j: int|
            0 <= j < es.drop_last().len() && j != i ==> up.drop_last()[j] == es.drop_last()[j]);
        lemma_entries_map_update(es.drop_last(), up.drop_last(), i);
        assert(up.last() == es.last());
        assert(up[i].0@ != es.last().0@);
        assert(entries_map(up) == entries_map(up.drop_last()).insert(es.last().0@, es.last().1@));
        assert(up.drop_last()[i] == up[i]);
        assert(entries_map(es.drop_last()).insert(up[i].0@, up[i].1@).insert(
            es.last().0@,
            es.last().1@,
        ) =~= entries_map(es.drop_last()).insert(es.last().0@, es.last().1@).insert(
            up[i].0@,
            up[i].1@,
        ));
    }
}

/// An in-memory manager of titled entries with map semantics: adding
/// an entry under an existing title replaces it, any other title is
/// appended.
pub struct LastpassPasswordManager {
    pub password_entries: Vec<(String, PasswordEntry)>,
}

impl LastpassPasswordManager {
    /// The titles stay pairwise distinct.
    pub open spec fn wf(self) -> bool {
        unique_titles(self.password_entries@)
    }

    /// The stored entries by title.
    pub open spec fn entries(self) -> Map<Seq<char>, PasswordEntryV> {
        entries_map(self.password_entries@)
    }

    pub fn create() -> (r: LastpassPasswordManager)
        ensures
            r.wf(),
            r.entries() == Map::<Seq<char>, PasswordEntryV>::empty(),
            r.password_entries@.len() == 0,
    {
        LastpassPasswordManager { password_entries: Vec::new() }
    }

    /// Stores the credential under the title `url (login)`: a fresh
    /// title adds an entry, a known one replaces that entry.
    pub fn add_password(&mut self, url: String, login: String, password: String)
        requires
            old(self).wf(),
        ensures
            final (self).wf(),
            final (self).entries() == old(self).entries().insert(
                title_spec(url@, login@),
                PasswordEntryV { url: url@, login: login@, password: password@ },
            ),
            final (self).password_entries@.len() == if old(self).entries().contains_key(
                title_spec(url@, login@),
            ) {
                old(self).password_entries@.len()
            } else {
                old(self).password_entries@.len() + 1
            },
    {
        let entry = PasswordEntry::from(url.clone(), login.clone(), password.clone());
        let title = make_title(&url, &login);
        upsert_entry(&mut self.password_entries, title, entry);
    }
}

/// Stores `entry` under `title` with map semantics: a known title has
/// its entry replaced in place, a fresh one is appended.
fn upsert_entry(es: &mut Vec<(String, PasswordEntry)>, title: String, entry: PasswordEntry)
    requires
        unique_titles(old(es)@),
    ensures
        unique_titles(final (es)@),
        entries_map(final (es)@) == entries_map(old(es)@).insert(title@, entry@),
        final (es)@.len() == old(es)@.len() + (if entries_map(old(es)@).contains_key(title@) {
            0int
        } else {
            1int
        }),
{
    let ghost tv = title@;
    let ghost ev = entry@;
    let n = es.len();
    let mut i: usize = 0;
    while i < n
        invariant
            unique_titles(old(es)@),
            es@ == old(es)@,
            n == es@.len(),
            i <= n,
            forall|j: int| 0 <= j < i ==> es@[j].0@ != tv,
            title@ == tv,
            entry@ == ev,
        decreases n - i,
    {
        if es[i].0.eq(&title) {
            let ghost prev = es@;
            proof {
                lemma_entries_map_key(prev, i as int);
            }
            es.set(i, (title, entry));
            proof {
                lemma_entries_map_update(prev, es@, i as int);
            }
            return ;
        }
        i = i + 1;
    }
    let ghost prev = es@;
    es.push((title, entry));
    proof {
        assert(es@.drop_last() =~= prev);
        assert(es@.last().0@ == tv);
        assert(entries_map(es@) == entries_map(prev).insert(tv, ev));
        assert forall|a: int, b: int| 0 <= a < b < es@.len() implies es@[a].0@ != es@[b].0@ by {
            if b < prev.len() {
                assert(prev[a].0@ != prev[b].0@);
            } else {
                assert(prev[a].0@ != tv);
            }
        }
        if entries_map(prev).contains_key(tv) {
            lemma_entries_map_key_exists(prev, tv);
            let j = choose|j: int| 0 <= j < prev.len() && #[trigger] prev[j].0@ == tv;
            assert(false);
        }
    }
}

/// Collapses entries that share a title: each title once, carrying
/// the last value stored under it.  The contract pins the entries as
/// the map the titles make; which order they are read out in is left
/// open, as it was for the store this stands in for.
pub fn dedup_entries(entries: Vec<(String, PasswordEntry)>) -> (r: Vec<(String, PasswordEntry)>)
    ensures
        unique_titles(r@),
        entries_map(r@) == entries_map(entries@),
{
    let mut acc: Vec<(String, PasswordEntry)> = Vec::new();
    let n = entries.len();
    let mut i: usize = 0;
    proof {
        assert(entries@.subrange(0, 0) =~= Seq::<(String, PasswordEntry)>::empty());
        assert(entries_map(acc@) =~= entries_map(entries@.subrange(0, 0)));
    }
    while i < n
        invariant
            n == entries@.len(),
            i <= n,
            unique_titles(acc@),
            entries_map(acc@) == entries_map(entries@.subrange(0, i as int)),
        decreases n - i,
    {
        let ghost prefix = entries@.subrange(0, i as int);
        let title = entries[i].0.clone();
        let entry = PasswordEntry::from(
            entries[i].1.url.clone(),
            entries[i].1.login.clone(),
            entries[i].1.password.clone(),
        );
        proof {
            assert(entries@.subrange(0, i + 1).drop_last() =~= prefix);
            assert(entries@.subrange(0, i + 1).last() == entries@[i as int]);
        }
        upsert_entry(&mut acc, title, entry);
        proof {
            assert(entries_map(acc@) =~= entries_map(entries@.subrange(0, i + 1)));
        }
        i = i + 1;
    }
    proof {
        assert(entries@.subrange(0, n as int) =~= entries@);
    }
    acc
}

/// The text between the first `:` and the next `:` or the end: the
/// value part of a `key: value` export line.
pub open spec fn second_field(s: Seq<char>) -> Seq<char> {
    match find_first(s, ':') {
        Some(i) => {
            let rest = s.subrange(i + 1, s.len() as int);
            match find_first(rest, ':') {
                Some(j) => rest.subrange(0, j),
                None => rest,
            }
        },
        None => Seq::empty(),
    }
}

/// Whether the line holds the `---` entry separator.
pub open spec fn has_triple_dash(s: Seq<char>) -> bool {
    exists|i: int|
        0 <= i && i + 3 <= s.len() && #[trigger] s[i] == '-' && s[i + 1] == '-' && s[i + 2] == '-'
}

/// The value carried by a `key: value` line: the trimmed text after
/// the first colon.  A line without a colon carries none.
pub fn extract_field(line: &str) -> (r: Option<String>)
    ensures
        r is Some <==> contains_char(line@, ':'),
        r matches Some(f) ==> f@ == trim_spec(second_field(line@)),
{
    let cs = chars_of(line);
    let colon = find_char_from(&cs, ':', 0);
    match colon {
        None => {
            proof {
                lemma_find_first_none(cs@, ':');
                assert(!contains_char(line@, ':'));
            }
            None
        },
        Some(i) => {
            proof {
                lemma_find_first_at(cs@, ':', i as int);
                assert(contains_char(line@, ':'));
            }
            let ghost rest = cs@.subrange(i + 1, cs@.len() as int);
            let hi: usize;
            match find_char_from(&cs, ':', i + 1) {
                Some(j) => {
                    proof {
                        assert(forall|k: int| 0 <= k < j - i - 1 ==> rest[k] != ':');
                        assert(rest[j - i - 1] == ':');
                        lemma_find_first_at(rest, ':', j - i - 1);
                    }
                    hi = j;
                },
                None => {
                    proof {
                        assert(forall|k: int| 0 <= k < rest.len() ==> rest[k] != ':');
                        lemma_find_first_none(rest, ':');
                    }
                    hi = cs.len();
                },
            }
            let sub = sub_chars(&cs, i + 1, hi);
            proof {
                assert(sub@ =~= second_field(line@));
            }
            let t = trim_chars(&sub);
            Some(string_from_chars(&t))
        },
    }
}

/// Whether the line closes the entry accumulated so far.
pub fn is_entry_separator(line: &str) -> (r: bool)
    ensures
        r == has_triple_dash(line@),
{
    let cs = chars_of(line);
    let n = cs.len();
    if n < 3 {
        return false;
    }
    let mut i: usize = 0;
    while i <= n - 3
        invariant
            cs@ == line@,
            n == cs@.len(),
            3 <= n,
            i <= n - 2,
            forall|k: int|
                0 <= k < i ==> !(#[trigger] cs@[k] == '-' && cs@[k + 1] == '-' && cs@[k + 2]
                    == '-'),
        decreases n - i,
    {
        if cs[i] == '-' && cs[i + 1] == '-' && cs[i + 2] == '-' {
            return true;
        }
        i = i + 1;
    }
    false
}

/// The entries accumulated so far and the values still waiting for a
/// separator line.
pub struct ExportState {
    pub entries: Seq<(Seq<char>, PasswordEntryV)>,
    pub fields: Seq<Seq<char>>,
}

/// One line of the export applied to the accumulated state: a colon
/// line contributes its value, a separator line closes the entry whose
/// first three values are url, login and password.  A separator with
/// fewer than three values is a malformed export.
pub open spec fn export_step(st: ExportState, line: Seq<char>) -> Option<ExportState> {
    let fields = if contains_char(line, ':') {
        st.fields.push(trim_spec(second_field(line)))
    } else {
        st.fields
    };
    if has_triple_dash(line) {
        if fields.len() >= 3 {
            Some(
                ExportState {
                    entries: st.entries.push(
                        (
                            title_spec(fields[0], fields[1]),
                            PasswordEntryV {
                                url: fields[0],
                                login: fields[1],
                                password: fields[2],
                            },
                        ),
                    ),
                    fields: Seq::empty(),
                },
            )
        } else {
            None
        }
    } else {
        Some(ExportState { entries: st.entries, fields })
    }
}

/// The whole export folded line by line from the empty state.
pub open spec fn export_fold(lines: Seq<Seq<char>>) -> Option<ExportState>
    decreases lines.len(),
{
    if lines.len() == 0 {
        Some(ExportState { entries: Seq::empty(), fields: Seq::empty() })
    } else {
        match export_fold(lines.drop_last()) {
            None => None,
            Some(st) => export_step(st, lines.last()),
        }
    }
}

/// The views of a sequence of lines.
pub open spec fn str_views(ls: Seq<String>) -> Seq<Seq<char>> {
    ls.map_values(|s: String| s@)
}

/// The views of titled entries.
pub open spec fn titled_views(es: Seq<(String, PasswordEntry)>) -> Seq<(Seq<char>, PasswordEntryV)> {
    es.map_values(|e: (String, PasswordEntry)| (e.0@, e.1@))
}

/// Parses one vendor's password export, line by line: exactly the
/// entries that `export_fold` yields, or nothing on a malformed export
/// (a separator before three values arrived).  Values accumulated
/// after the last separator are discarded, as the source format asks.
pub fn parse_kaspersky_export(lines: &Vec<String>) -> (r: Option<Vec<(String, PasswordEntry)>>)
    ensures
        match r {
            Some(es) => export_fold(str_views(lines@)) matches Some(st) && titled_views(es@)
                == st.entries,
            None => export_fold(str_views(lines@)) is None,
        },
{
    let mut entries: Vec<(String, PasswordEntry)> = Vec::new();
    let mut fields: Vec<String> = Vec::new();
    let mut i: usize = 0;
    proof {
        assert(str_views(lines@.subrange(0, 0)) =~= Seq::<Seq<char>>::empty());
        assert(titled_views(entries@) =~= Seq::<(Seq<char>, PasswordEntryV)>::empty());
        assert(str_views(fields@) =~= Seq::<Seq<char>>::empty());
    }
    while i < lines.len()
        invariant
            i <= lines@.len(),
            export_fold(str_views(lines@.subrange(0, i as int))) == Some(
                ExportState { entries: titled_views(entries@), fields: str_views(fields@) },
            ),
        decreases lines@.len() - i,
    {
        let ghost prefix = lines@.subrange(0, i as int);
        let ghost st = ExportState { entries: titled_views(entries@), fields: str_views(fields@) };
        let ghost lv = lines@[i as int]@;
        let line = &lines[i];
        match extract_field(line.as_str()) {
            Some(f) => {
                fields.push(f);
                proof {
                    assert(str_views(fields@) =~= st.fields.push(trim_spec(second_field(lv))));
                }
            },
            None => (),
        }
        let ghost stepped_fields = str_views(fields@);
        proof {
            assert(stepped_fields == if contains_char(lv, ':') {
                st.fields.push(trim_spec(second_field(lv)))
            } else {
                st.fields
            });
        }
        if is_entry_separator(line.as_str()) {
            if fields.len() >= 3 {
                let url = fields[0].clone();
                let login = fields[1].clone();
                let password = fields[2].clone();
                let title = make_title(&url, &login);
                let entry = PasswordEntry::from(url, login, password);
                let ghost before = titled_views(entries@);
                proof {
                    assert(title@ == title_spec(stepped_fields[0], stepped_fields[1]));
                    assert(entry@ == (PasswordEntryV {
                        url: stepped_fields[0],
                        login: stepped_fields[1],
                        password: stepped_fields[2],
                    }));
                }
                entries.push((title, entry));
                fields.clear();
                proof {
                    assert(titled_views(entries@) =~= before.push(
                        (
                            title_spec(stepped_fields[0], stepped_fields[1]),
                            PasswordEntryV {
                                url: stepped_fields[0],
                                login: stepped_fields[1],
                                password: stepped_fields[2],
                            },
                        ),
                    ));
                    assert(str_views(fields@) =~= Seq::<Seq<char>>::empty());
                }
            } else {
                proof {
                    assert(str_views(lines@.subrange(0, i + 1)).drop_last() =~= str_views(prefix));
                    assert(str_views(lines@.subrange(0, i + 1)).last() == lv);
                    assert(export_fold(str_views(lines@.subrange(0, i + 1))) is None);
                    lemma_export_fold_none(lines@, i + 1);
                }
                return None;
            }
        }
        proof {
            assert(str_views(lines@.subrange(0, i + 1)).drop_last() =~= str_views(prefix));
            assert(str_views(lines@.subrange(0, i + 1)).last() == lv);
            assert(export_fold(str_views(lines@.subrange(0, i + 1))) == export_step(st, lv));
            assert(export_step(st, lv) == Some(
                ExportState { entries: titled_views(entries@), fields: str_views(fields@) },
            ));
        }
        i = i + 1;
    }
    proof {
        assert(lines@.subrange(0, lines@.len() as int) =~= lines@);
    }
    Some(entries)
}

/// Once a prefix of the export is malformed, the whole export is.
proof fn lemma_export_fold_none(lines: Seq<String>, k: int)
    requires
        0 <= k <= lines.len(),
        export_fold(str_views(lines.subrange(0, k))) is None,
    ensures
        export_fold(str_views(lines)) is None,
    decreases lines.len() - k,
{
    if k < lines.len() {
        assert(str_views(lines.subrange(0, k + 1)).drop_last() =~= str_views(lines.subrange(0, k)));
        lemma_export_fold_none(lines, k + 1);
    } else {
        assert(lines.subrange(0, k) =~= lines);
    }
}

/// The header of the rendered CSV.
pub open spec fn csv_header() -> Seq<char> {
    "title, url, login, password\n"@
}

/// One rendered CSV line: title, url, login and password, separated.
pub open spec fn csv_line(title: Seq<char>, e: PasswordEntryV) -> Seq<char> {
    title + ", "@ + e.url + ", "@ + e.login + ", "@ + e.password + "\n"@
}

/// Renders titled entries as CSV: the fixed header, then one line per
/// entry in order.
pub fn render_csv(entries: &Vec<(String, PasswordEntry)>) -> (out: Vec<String>)
    ensures
        out@.len() == entries@.len() + 1,
        out@[0]@ == csv_header(),
        forall|i: int|
            0 <= i < entries@.len() ==> out@[i + 1]@ == csv_line(
                entries@[i].0@,
                #[trigger] entries@[i].1@,
            ),
{
    let mut out: Vec<String> = Vec::new();
    out.push(String::from_str("title, url, login, password\n"));
    let mut i: usize = 0;
    while i < entries.len()
        invariant
            i <= entries@.len(),
            out@.len() == i + 1,
            out@[0]@ == csv_header(),
            forall|j: int|
                0 <= j < i ==> out@[j + 1]@ == csv_line(entries@[j].0@, #[trigger] entries@[j].1@),
        decreases entries@.len() - i,
    {
        let mut line = entries[i].0.clone();
        line.append(", ");
        line.append(entries[i].1.url.as_str());
        line.append(", ");
        line.append(entries[i].1.login.as_str());
        line.append(", ");
        line.append(entries[i].1.password.as_str());
        line.append("\n");
        out.push(line);
        i = i + 1;
    }
    out
}

} // verus!
