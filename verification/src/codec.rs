//! The config file format: a YAML document holding every profile under a
//! `profiles:` mapping, two spaces of indent for a profile name and four for
//! its fields. Writing and reading are verified against one emission spec,
//! and reading back what was written is proved to give the record unchanged.

use vstd::prelude::*;
use vstd::string::StringExecFns;
use vstd::string::StrSliceExecFns;
use crate::errors::CliError;
use crate::profiles::CliConfig;
use crate::profiles::EntryV;
use crate::profiles::Profile;
use crate::profiles::ProfileEntry;
use crate::profiles::ProfileV;
use crate::profiles::config_wf;
use crate::profiles::entries_wf;
use crate::profiles::entry_wf;
use crate::profiles::names_unique;
use crate::text::find_newline;
use crate::text::find_newline_from;
use crate::text::lemma_split_line_concat;
use crate::text::lemma_strip_prefix_concat;
use crate::text::no_newline;
use crate::text::split_line;
use crate::text::str_eq;
use crate::text::strip_prefix;
use crate::text::strip_prefix_str;

verus! {

/// The document line under which the profiles stand.
pub open spec fn header_text() -> Seq<char> {
    "profiles:\n"@
}

/// The line naming a profile: two spaces, the name, a colon.
pub open spec fn name_line(name: Seq<char>) -> Seq<char> {
    "  "@ + name + ":\n"@
}

/// One field line: four spaces, the key, a colon and a space, the value.
pub open spec fn account_prefix() -> Seq<char> {
    "    account: "@
}

pub open spec fn private_key_prefix() -> Seq<char> {
    "    private_key: "@
}

pub open spec fn rest_url_prefix() -> Seq<char> {
    "    rest_url: "@
}

/// The lines of one profile entry.
pub open spec fn emit_entry(e: EntryV) -> Seq<char> {
    name_line(e.name) + account_prefix() + e.profile.account + "\n"@ + private_key_prefix()
        + e.profile.private_key + "\n"@ + rest_url_prefix() + e.profile.rest_url + "\n"@
}

/// The lines of every entry, in record order.
pub open spec fn emit_entries(s: Seq<EntryV>) -> Seq<char>
    decreases s.len(),
{
    if s.len() == 0 {
        Seq::empty()
    } else {
        emit_entry(s[0]) + emit_entries(s.drop_first())
    }
}

/// The whole document for a config record.
pub open spec fn emit_config(s: Seq<EntryV>) -> Seq<char> {
    header_text() + emit_entries(s)
}

/// Emitting one more entry appends its lines at the end.
proof fn lemma_emit_entries_push(s: Seq<EntryV>, e: EntryV)
    ensures
        emit_entries(s.push(e)) == emit_entries(s) + emit_entry(e),
    decreases s.len(),
{
    if s.len() == 0 {
        assert(s.push(e)[0] == e);
        assert(s.push(e).drop_first() =~= Seq::<EntryV>::empty());
        assert(emit_entries(Seq::<EntryV>::empty()) == Seq::<char>::empty());
        assert(emit_entries(s.push(e)) == emit_entry(e) + emit_entries(Seq::<EntryV>::empty()));
        assert(emit_entries(s) == Seq::<char>::empty());
        assert(emit_entries(s.push(e)) =~= emit_entries(s) + emit_entry(e));
    } else {
        assert(s.push(e).drop_first() =~= s.drop_first().push(e));
        lemma_emit_entries_push(s.drop_first(), e);
        assert(s.push(e)[0] == s[0]);
        assert(emit_entries(s.push(e)) =~= emit_entries(s) + emit_entry(e));
    }
}

/// The name a profile line carries: the line is two spaces, the name, a colon.
pub open spec fn parse_name_line(line: Seq<char>) -> Option<Seq<char>> {
    if line.len() >= 3 && line[0] == ' ' && line[1] == ' ' && line[line.len() - 1] == ':' {
        Some(line.subrange(2, line.len() - 1))
    } else {
        None
    }
}

/// One profile entry read from the front of the text, with what follows it.
pub open spec fn parse_entry(t: Seq<char>) -> Option<(EntryV, Seq<char>)> {
    match split_line(t) {
        None => None,
        Some(p1) => match parse_name_line(p1.0) {
            None => None,
            Some(name) => match split_line(p1.1) {
                None => None,
                Some(p2) => match strip_prefix(p2.0, account_prefix()) {
                    None => None,
                    Some(account) => match split_line(p2.1) {
                        None => None,
                        Some(p3) => match strip_prefix(p3.0, private_key_prefix()) {
                            None => None,
                            Some(private_key) => match split_line(p3.1) {
                                None => None,
                                Some(p4) => match strip_prefix(p4.0, rest_url_prefix()) {
                                    None => None,
                                    Some(rest_url) => Some(
                                        (
                                            EntryV {
                                                name,
                                                profile: ProfileV { account, private_key, rest_url },
                                            },
                                            p4.1,
                                        ),
                                    ),
                                },
                            },
                        },
                    },
                },
            },
        },
    }
}

/// Every entry read from the text, which must consist of entries alone.
pub open spec fn parse_entries(t: Seq<char>) -> Option<Seq<EntryV>>
    decreases t.len(),
{
    if t.len() == 0 {
        Some(Seq::empty())
    } else {
        match parse_entry(t) {
            None => None,
            Some(p) => if p.1.len() < t.len() {
                match parse_entries(p.1) {
                    None => None,
                    Some(es) => Some(seq![p.0] + es),
                }
            } else {
                None
            },
        }
    }
}

/// The config record a document holds: the header line, then the entries,
/// whose names must not repeat.
pub open spec fn parse_config(t: Seq<char>) -> Option<Seq<EntryV>> {
    match strip_prefix(t, header_text()) {
        None => None,
        Some(body) => match parse_entries(body) {
            None => None,
            Some(es) => if names_unique(es) {
                Some(es)
            } else {
                None
            },
        },
    }
}

/// Reads one entry starting at character position `pos`.
fn parse_entry_at(s: &str, pos: usize) -> (r: Option<(ProfileEntry, usize)>)
    requires
        pos <= s@.len(),
    ensures
        match r {
            Some(er) => pos < er.1 <= s@.len() && parse_entry(s@.skip(pos as int)) == Some(
                (er.0@, s@.skip(er.1 as int)),
            ),
            None => parse_entry(s@.skip(pos as int)) is None,
        },
{
    let ghost t = s@.skip(pos as int);
    let slen = s.unicode_len();
    // the profile name line
    let nl1 = match find_newline_from(s, pos) {
        Some(k) => k,
        None => {
            return None;
        },
    };
    let line1 = s.substring_char(pos, nl1);
    proof {
        assert(t.take(nl1 - pos) =~= line1@);
        assert(t.skip(nl1 - pos + 1) =~= s@.skip(nl1 + 1));
        assert(split_line(t) == Some((line1@, s@.skip(nl1 + 1))));
    }
    let llen = line1.unicode_len();
    if !(llen >= 3 && line1.get_char(0) == ' ' && line1.get_char(1) == ' ' && line1.get_char(
        llen - 1,
    ) == ':') {
        return None;
    }
    let name = line1.substring_char(2, llen - 1).to_owned();
    proof {
        assert(parse_name_line(line1@) == Some(name@));
    }
    // the account line
    let pos2 = nl1 + 1;
    let nl2 = match find_newline_from(s, pos2) {
        Some(k) => k,
        None => {
            return None;
        },
    };
    let line2 = s.substring_char(pos2, nl2);
    proof {
        let t2 = s@.skip(pos2 as int);
        assert(t2.take(nl2 - pos2) =~= line2@);
        assert(t2.skip(nl2 - pos2 + 1) =~= s@.skip(nl2 + 1));
        assert(split_line(t2) == Some((line2@, s@.skip(nl2 + 1))));
    }
    let account = match strip_prefix_str(line2, "    account: ") {
        Some(v) => v,
        None => {
            return None;
        },
    };
    // the private key line
    let pos3 = nl2 + 1;
    let nl3 = match find_newline_from(s, pos3) {
        Some(k) => k,
        None => {
            return None;
        },
    };
    let line3 = s.substring_char(pos3, nl3);
    proof {
        let t3 = s@.skip(pos3 as int);
        assert(t3.take(nl3 - pos3) =~= line3@);
        assert(t3.skip(nl3 - pos3 + 1) =~= s@.skip(nl3 + 1));
        assert(split_line(t3) == Some((line3@, s@.skip(nl3 + 1))));
    }
    let private_key = match strip_prefix_str(line3, "    private_key: ") {
        Some(v) => v,
        None => {
            return None;
        },
    };
    // the rest url line
    let pos4 = nl3 + 1;
    let nl4 = match find_newline_from(s, pos4) {
        Some(k) => k,
        None => {
            return None;
        },
    };
    let line4 = s.substring_char(pos4, nl4);
    proof {
        let t4 = s@.skip(pos4 as int);
        assert(t4.take(nl4 - pos4) =~= line4@);
        assert(t4.skip(nl4 - pos4 + 1) =~= s@.skip(nl4 + 1));
        assert(split_line(t4) == Some((line4@, s@.skip(nl4 + 1))));
    }
    let rest_url = match strip_prefix_str(line4, "    rest_url: ") {
        Some(v) => v,
        None => {
            return None;
        },
    };
    let entry = ProfileEntry {
        name,
        profile: Profile { account, private_key, rest_url },
    };
    Some((entry, nl4 + 1))
}

/// Reads every entry from character position `pos` to the end of the text.
fn parse_entries_from(s: &str, pos: usize) -> (r: Option<Vec<ProfileEntry>>)
    requires
        pos <= s@.len(),
    ensures
        match r {
            Some(v) => parse_entries(s@.skip(pos as int)) == Some(v.deep_view()),
            None => parse_entries(s@.skip(pos as int)) is None,
        },
    decreases s@.len() - pos,
{
    let len = s.unicode_len();
    if pos == len {
        proof {
            assert(s@.skip(pos as int).len() == 0);
        }
        let v: Vec<ProfileEntry> = Vec::new();
        proof {
            assert(v.deep_view() =~= Seq::<EntryV>::empty());
        }
        return Some(v);
    }
    let ghost t = s@.skip(pos as int);
    proof {
        assert(t.len() > 0);
    }
    let (entry, next) = match parse_entry_at(s, pos) {
        Some(er) => er,
        None => {
            return None;
        },
    };
    proof {
        assert(s@.skip(next as int).len() < t.len());
    }
    let mut rest = match parse_entries_from(s, next) {
        Some(v) => v,
        None => {
            return None;
        },
    };
    let ghost rest_view = rest.deep_view();
    rest.insert(0, entry);
    proof {
        assert(rest.deep_view() =~= seq![entry@] + rest_view);
    }
    Some(rest)
}

impl CliConfig {
    /// Reads a config record from a YAML document, accepting exactly the
    /// documents this library writes; rejects one whose profile names repeat.
    pub fn from_yaml(text: &str) -> (r: Option<CliConfig>)
        ensures
            match r {
                Some(c) => parse_config(text@) == Some(c@) && config_wf(c@),
                None => parse_config(text@) is None,
            },
    {
        let hlen = "profiles:\n".unicode_len();
        let tlen = text.unicode_len();
        if tlen < hlen {
            return None;
        }
        if !str_eq(text.substring_char(0, hlen), "profiles:\n") {
            proof {
                assert(text@.take(hlen as int) =~= text@.subrange(0, hlen as int));
            }
            return None;
        }
        proof {
            assert(text@.take(hlen as int) =~= text@.subrange(0, hlen as int));
            assert(strip_prefix(text@, header_text()) == Some(text@.skip(hlen as int)));
        }
        let entries = match parse_entries_from(text, hlen) {
            Some(v) => v,
            None => {
                return None;
            },
        };
        let config = CliConfig { profiles: entries };
        if !config_names_unique(&config) {
            return None;
        }
        proof {
            lemma_parsed_entries_wf(text@.skip(hlen as int), config@);
        }
        Some(config)
    }
}

/// Whether no profile name of the record repeats.
fn config_names_unique(c: &CliConfig) -> (r: bool)
    ensures
        r == names_unique(c@),
{
    let n = c.profiles.len();
    let mut i: usize = 0;
    while i < n
        invariant
            i <= n,
            n == c.profiles.len(),
            forall|k: int, l: int| 0 <= k < l < i ==> c@[k].name != c@[l].name,
        decreases n - i,
    {
        let mut j: usize = 0;
        while j < i
            invariant
                j <= i < n,
                n == c.profiles.len(),
                forall|k: int| 0 <= k < j ==> (#[trigger] c@[k].name) != c@[i as int].name,
            decreases i - j,
        {
            proof {
                assert(c@[j as int] == c.profiles[j as int]@);
                assert(c@[i as int] == c.profiles[i as int]@);
            }
            if str_eq(c.profiles[j].name.as_str(), c.profiles[i].name.as_str()) {
                proof {
                    assert(c@[j as int].name == c@[i as int].name);
                    assert(!names_unique(c@));
                }
                return false;
            }
            j = j + 1;
        }
        i = i + 1;
    }
    true
}

/// Every entry a parse returns is well formed: its name and fields came from
/// single lines of the document.
proof fn lemma_parsed_entries_wf(t: Seq<char>, es: Seq<EntryV>)
    requires
        parse_entries(t) == Some(es),
    ensures
        entries_wf(es),
    decreases t.len(),
{
    if t.len() == 0 {
    } else {
        let p = parse_entry(t).unwrap();
        lemma_parse_entry_wf(t);
        lemma_parsed_entries_wf(p.1, parse_entries(p.1).unwrap());
        assert forall|i: int| 0 <= i < es.len() implies entry_wf(#[trigger] es[i]) by {
            if i > 0 {
                assert(es[i] == parse_entries(p.1).unwrap()[i - 1]);
            }
        }
    }
}

/// The entry `parse_entry` returns is well formed.
proof fn lemma_parse_entry_wf(t: Seq<char>)
    requires
        parse_entry(t) is Some,
    ensures
        entry_wf(parse_entry(t).unwrap().0),
{
    let k1 = find_newline(t);
    crate::text::lemma_find_newline(t);
    let line1 = t.take(k1);
    let r1 = t.skip(k1 + 1);
    let k2 = find_newline(r1);
    crate::text::lemma_find_newline(r1);
    let line2 = r1.take(k2);
    let r2 = r1.skip(k2 + 1);
    let k3 = find_newline(r2);
    crate::text::lemma_find_newline(r2);
    let line3 = r2.take(k3);
    let r3 = r2.skip(k3 + 1);
    let k4 = find_newline(r3);
    crate::text::lemma_find_newline(r3);
    let line4 = r3.take(k4);
    let e = parse_entry(t).unwrap().0;
    assert(e.name == line1.subrange(2, line1.len() - 1));
    assert(no_newline(e.name)) by {
        assert(forall|i: int| 0 <= i < e.name.len() ==> e.name[i] == line1[i + 2]);
    }
    assert(no_newline(e.profile.account)) by {
        let p = account_prefix();
        assert(forall|i: int|
            0 <= i < e.profile.account.len() ==> e.profile.account[i] == line2[i + p.len()]);
    }
    assert(no_newline(e.profile.private_key)) by {
        let p = private_key_prefix();
        assert(forall|i: int|
            0 <= i < e.profile.private_key.len() ==> e.profile.private_key[i] == line3[i
                + p.len()]);
    }
    assert(no_newline(e.profile.rest_url)) by {
        let p = rest_url_prefix();
        assert(forall|i: int|
            0 <= i < e.profile.rest_url.len() ==> e.profile.rest_url[i] == line4[i + p.len()]);
    }
}

/// The contents of the literal pieces of the format.
proof fn lemma_literals()
    ensures
        "  "@ == seq![' ', ' '],
        ":\n"@ == seq![':', '\n'],
        "\n"@ == seq!['\n'],
        account_prefix().len() == 13,
        private_key_prefix().len() == 17,
        rest_url_prefix().len() == 14,
        header_text().len() == 10,
        no_newline(account_prefix()),
        no_newline(private_key_prefix()),
        no_newline(rest_url_prefix()),
{
    reveal_strlit("  ");
    reveal_strlit(":\n");
    reveal_strlit("\n");
    reveal_strlit("    account: ");
    reveal_strlit("    private_key: ");
    reveal_strlit("    rest_url: ");
    reveal_strlit("profiles:\n");
    assert("  "@ =~= seq![' ', ' ']);
    assert(":\n"@ =~= seq![':', '\n']);
    assert("\n"@ =~= seq!['\n']);
}

/// Reading one emitted entry from the front of a text gives the entry back
/// and leaves exactly what followed it.
proof fn lemma_parse_entry_of_emit(e: EntryV, rest: Seq<char>)
    requires
        entry_wf(e),
    ensures
        emit_entry(e).len() > 0,
        parse_entry(emit_entry(e) + rest) is Some,
        parse_entry(emit_entry(e) + rest).unwrap().0 == e,
        parse_entry(emit_entry(e) + rest).unwrap().1 == rest,
{
    lemma_literals();
    let t = emit_entry(e) + rest;
    let x1 = seq![' ', ' '] + e.name + seq![':'];
    let x2 = account_prefix() + e.profile.account;
    let x3 = private_key_prefix() + e.profile.private_key;
    let x4 = rest_url_prefix() + e.profile.rest_url;
    let r3 = x4 + seq!['\n'] + rest;
    let r2 = x3 + seq!['\n'] + r3;
    let r1 = x2 + seq!['\n'] + r2;
    assert(t =~= x1 + seq!['\n'] + r1);
    assert(no_newline(x1)) by {
        assert forall|i: int| 0 <= i < x1.len() implies x1[i] != '\n' by {
            if 2 <= i < 2 + e.name.len() {
                assert(x1[i] == e.name[i - 2]);
            }
        }
    }
    lemma_split_line_concat(x1, r1);
    assert(split_line(t) == Some((x1, r1)));
    assert(x1[x1.len() - 1] == ':');
    assert(x1.subrange(2, x1.len() - 1) =~= e.name);
    assert(parse_name_line(x1) == Some(e.name));
    assert(no_newline(x2)) by {
        assert forall|i: int| 0 <= i < x2.len() implies x2[i] != '\n' by {
            if i >= account_prefix().len() {
                assert(x2[i] == e.profile.account[i - account_prefix().len()]);
            }
        }
    }
    lemma_split_line_concat(x2, r2);
    lemma_strip_prefix_concat(account_prefix(), e.profile.account);
    assert(no_newline(x3)) by {
        assert forall|i: int| 0 <= i < x3.len() implies x3[i] != '\n' by {
            if i >= private_key_prefix().len() {
                assert(x3[i] == e.profile.private_key[i - private_key_prefix().len()]);
            }
        }
    }
    lemma_split_line_concat(x3, r3);
    lemma_strip_prefix_concat(private_key_prefix(), e.profile.private_key);
    assert(no_newline(x4)) by {
        assert forall|i: int| 0 <= i < x4.len() implies x4[i] != '\n' by {
            if i >= rest_url_prefix().len() {
                assert(x4[i] == e.profile.rest_url[i - rest_url_prefix().len()]);
            }
        }
    }
    lemma_split_line_concat(x4, rest);
    lemma_strip_prefix_concat(rest_url_prefix(), e.profile.rest_url);
    assert(parse_entry(t).unwrap().0 =~= e);
}

/// Reading emitted entries from the front of a text gives the entries back,
/// followed by whatever the rest of the text holds.
proof fn lemma_parse_entries_of_emit(s: Seq<EntryV>, rest: Seq<char>)
    requires
        entries_wf(s),
    ensures
        parse_entries(emit_entries(s) + rest) == (match parse_entries(rest) {
            None => None::<Seq<EntryV>>,
            Some(es) => Some(s + es),
        }),
    decreases s.len(),
{
    if s.len() == 0 {
        assert(emit_entries(s) + rest =~= rest);
        if parse_entries(rest) is Some {
            assert(s + parse_entries(rest).unwrap() =~= parse_entries(rest).unwrap());
        }
    } else {
        let t = emit_entries(s) + rest;
        let tail = emit_entries(s.drop_first()) + rest;
        assert(t =~= emit_entry(s[0]) + tail);
        assert(entry_wf(s[0]));
        lemma_parse_entry_of_emit(s[0], tail);
        assert(t.len() > 0);
        assert(tail.len() < t.len());
        assert(entries_wf(s.drop_first())) by {
            assert(forall|i: int|
                0 <= i < s.drop_first().len() ==> #[trigger] s.drop_first()[i] == s[i + 1]);
        }
        lemma_parse_entries_of_emit(s.drop_first(), rest);
        match parse_entries(rest) {
            None => {
                assert(parse_entries(t) is None);
            },
            Some(es) => {
                assert(parse_entries(tail) == Some(s.drop_first() + es));
                assert(seq![s[0]] + (s.drop_first() + es) =~= s + es);
            },
        }
    }
}

/// Saving and immediately loading round-trips the record: the document a
/// well-formed config record emits reads back as exactly that record.
pub proof fn lemma_round_trip(s: Seq<EntryV>)
    requires
        config_wf(s),
    ensures
        parse_config(emit_config(s)) == Some(s),
{
    lemma_strip_prefix_concat(header_text(), emit_entries(s));
    assert(strip_prefix(emit_config(s), header_text()) == Some(emit_entries(s)));
    assert(emit_entries(s) =~= emit_entries(s) + Seq::<char>::empty());
    assert(parse_entries(Seq::<char>::empty()) == Some(Seq::<EntryV>::empty()));
    lemma_parse_entries_of_emit(s, Seq::<char>::empty());
    assert(s + Seq::<EntryV>::empty() =~= s);
}

impl CliConfig {
    /// Serializes the record as its YAML document.
    pub fn to_yaml(&self) -> (r: String)
        ensures
            r@ == emit_config(self@),
    {
        let mut out = String::new();
        out.append("profiles:\n");
        proof {
            assert(out@ =~= header_text() + emit_entries(self@.take(0)));
        }
        let n = self.profiles.len();
        let mut i: usize = 0;
        while i < n
            invariant
                i <= n,
                n == self.profiles.len(),
                out@ == header_text() + emit_entries(self@.take(i as int)),
            decreases n - i,
        {
            proof {
                assert(self@[i as int] == self.profiles[i as int]@);
            }
            out.append("  ");
            out.append(self.profiles[i].name.as_str());
            out.append(":\n");
            out.append("    account: ");
            out.append(self.profiles[i].profile.account.as_str());
            out.append("\n");
            out.append("    private_key: ");
            out.append(self.profiles[i].profile.private_key.as_str());
            out.append("\n");
            out.append("    rest_url: ");
            out.append(self.profiles[i].profile.rest_url.as_str());
            out.append("\n");
            proof {
                lemma_emit_entries_push(self@.take(i as int), self@[i as int]);
                assert(self@.take(i as int).push(self@[i as int]) =~= self@.take(i + 1));
                assert(out@ =~= header_text() + emit_entries(self@.take(i + 1)));
            }
            i = i + 1;
        }
        proof {
            assert(self@.take(n as int) =~= self@);
        }
        out
    }

    /// The document a save writes: produced only for a record that reads
    /// back unchanged. A record with a line break in a name or field, or
    /// with a repeated name, is refused as a serialization failure.
    pub fn to_yaml_checked(&self) -> (r: Result<String, CliError>)
        ensures
            if config_wf(self@) {
                r is Ok && r.unwrap()@ == emit_config(self@)
            } else {
                r == Err::<String, CliError>(CliError::UnexpectedSerializationError)
            },
    {
        if self.is_well_formed() {
            Ok(self.to_yaml())
        } else {
            Err(CliError::UnexpectedSerializationError)
        }
    }
}

} // verus!
