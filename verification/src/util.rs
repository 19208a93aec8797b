//! Text utilities around saved commands: normalising a stored shell command
//! for execution, substituting `${name}` variable tokens, splitting tag
//! lists, and splitting dotted lookup paths.

use vstd::prelude::*;
use vstd::string::*;

use crate::flowlet_db::{first_match_at, no_match, FlowletDb, StoreDoc};
use crate::query::{name_query, Query, QueryField, QueryValue};
use crate::variable::{ReadVariableInput, Variable};

verus! {

/// The blank characters these utilities trim: space, tab and carriage
/// return.
pub open spec fn is_blank(c: char) -> bool {
    c == ' ' || c == '\t' || c == '\r'
}

/// Decides [`is_blank`].
pub fn blank_char(c: char) -> (r: bool)
    ensures
        r == is_blank(c),
{
    c == ' ' || c == '\t' || c == '\r'
}

/// The position of the first occurrence of `c`, or the length when there is
/// none.
pub open spec fn first_occ(s: Seq<char>, c: char) -> int
    decreases s.len(),
{
    if s.len() == 0 {
        0
    } else if s[0] == c {
        0
    } else {
        1 + first_occ(s.drop_first(), c)
    }
}

/// A scan that saw no `c` before `i`, and `c` at `i` unless it ran off the
/// end, has found the first occurrence.
pub proof fn lemma_first_occ(s: Seq<char>, c: char, i: int)
    requires
        0 <= i <= s.len(),
        forall|k: int| 0 <= k < i ==> s[k] != c,
        i < s.len() ==> s[i] == c,
    ensures
        first_occ(s, c) == i,
    decreases s.len(),
{
    if s.len() > 0 && s[0] != c {
        lemma_first_occ(s.drop_first(), c, i - 1);
    }
}

/// The string without its trailing blanks.
pub open spec fn trimmed_end(s: Seq<char>) -> Seq<char>
    decreases s.len(),
{
    if s.len() > 0 && is_blank(s.last()) {
        trimmed_end(s.drop_last())
    } else {
        s
    }
}

/// The string without its leading blanks.
pub open spec fn trimmed_start(s: Seq<char>) -> Seq<char>
    decreases s.len(),
{
    if s.len() > 0 && is_blank(s[0]) {
        trimmed_start(s.drop_first())
    } else {
        s
    }
}

/// The string without leading and trailing blanks.
pub open spec fn trimmed(s: Seq<char>) -> Seq<char> {
    trimmed_start(trimmed_end(s))
}

/// Each newline-separated line trimmed at its end, the lines joined with
/// single spaces.
pub open spec fn lines_joined(s: Seq<char>) -> Seq<char>
    decreases s.len(),
{
    let i = first_occ(s, '\n');
    if 0 <= i < s.len() {
        trimmed_end(s.take(i)) + seq![' '] + lines_joined(s.skip(i + 1))
    } else {
        trimmed_end(s)
    }
}

/// The string with every backslash removed.
pub open spec fn sans_backslashes(s: Seq<char>) -> Seq<char> {
    s.filter(|c: char| c != '\\')
}

/// One left-to-right pass replacing each non-overlapping double space by a
/// single one.
pub open spec fn collapsed(s: Seq<char>) -> Seq<char>
    decreases s.len(),
{
    if s.len() >= 2 && s[0] == ' ' && s[1] == ' ' {
        seq![' '] + collapsed(s.skip(2))
    } else if s.len() == 0 {
        s
    } else {
        seq![s[0]] + collapsed(s.skip(1))
    }
}

/// What [`clean_command`] produces: lines joined on single spaces with their
/// trailing blanks gone, backslashes removed, double spaces collapsed once,
/// and the whole trimmed.
pub open spec fn cleaned(s: Seq<char>) -> Seq<char> {
    trimmed(collapsed(sans_backslashes(lines_joined(s))))
}

/// Trims trailing blanks.
fn trim_end_str(s: &str) -> (r: String)
    ensures
        r@ == trimmed_end(s@),
{
    let n = s.unicode_len();
    proof {
        assert(s@.take(n as int) =~= s@);
    }
    let mut j = n;
    while j > 0 && blank_char(s.get_char(j - 1))
        invariant
            0 <= j <= n,
            n == s@.len(),
            trimmed_end(s@) == trimmed_end(s@.take(j as int)),
        decreases j,
    {
        proof {
            assert(s@.take(j as int).last() == s@[j - 1]);
            assert(s@.take(j as int).drop_last() =~= s@.take(j - 1));
        }
        j = j - 1;
    }
    proof {
        if j > 0 {
            assert(s@.take(j as int).last() == s@[j - 1]);
            assert(trimmed_end(s@.take(j as int)) == s@.take(j as int));
        } else {
            assert(s@.take(0) =~= Seq::<char>::empty());
        }
    }
    s.substring_char(0, j).to_owned()
}

/// Joins the trimmed lines of `s` with single spaces.
fn join_lines(s: &str) -> (r: String)
    ensures
        r@ == lines_joined(s@),
    decreases s@.len(),
{
    let n = s.unicode_len();
    let mut i: usize = 0;
    while i < n && s.get_char(i) != '\n'
        invariant
            0 <= i <= n,
            n == s@.len(),
            forall|k: int| 0 <= k < i ==> s@[k] != '\n',
        decreases n - i,
    {
        i = i + 1;
    }
    proof {
        lemma_first_occ(s@, '\n', i as int);
    }
    if i == n {
        trim_end_str(s)
    } else {
        let head = s.substring_char(0, i);
        let rest = s.substring_char(i + 1, n);
        let mut out = trim_end_str(head);
        out.append(" ");
        out.append(join_lines(rest).as_str());
        proof {
            assert(head@ =~= s@.take(i as int));
            assert(rest@ =~= s@.skip(i + 1));
            reveal_strlit(" ");
            assert(" "@ =~= seq![' ']);
        }
        out
    }
}

/// Removes every backslash.
fn strip_backslashes(s: &str) -> (r: String)
    ensures
        r@ == sans_backslashes(s@),
{
    let n = s.unicode_len();
    let mut out = String::new();
    let mut i: usize = 0;
    while i < n
        invariant
            0 <= i <= n,
            n == s@.len(),
            out@ == s@.take(i as int).filter(|c: char| c != '\\'),
        decreases n - i,
    {
        let c = s.get_char(i);
        if c != '\\' {
            out.append(s.substring_char(i, i + 1));
        }
        proof {
            let pre = s@.take(i as int);
            assert(s@.take(i + 1int) =~= pre.push(s@[i as int]));
            pre.lemma_filter_push(s@[i as int], |c: char| c != '\\');
            assert(s@.subrange(i as int, i + 1int) =~= seq![s@[i as int]]);
        }
        i = i + 1;
    }
    proof {
        assert(s@.take(n as int) =~= s@);
    }
    out
}

/// Collapses double spaces, in one left-to-right pass.
fn collapse_spaces(s: &str) -> (r: String)
    ensures
        r@ == collapsed(s@),
{
    let n = s.unicode_len();
    proof {
        assert(s@.skip(0) =~= s@);
    }
    let mut out = String::new();
    let mut i: usize = 0;
    while i < n
        invariant
            0 <= i <= n,
            n == s@.len(),
            collapsed(s@) == out@ + collapsed(s@.skip(i as int)),
        decreases n - i,
    {
        if i + 1 < n && s.get_char(i) == ' ' && s.get_char(i + 1) == ' ' {
            out.append(" ");
            proof {
                reveal_strlit(" ");
                assert(" "@ =~= seq![' ']);
                let rem = s@.skip(i as int);
                assert(rem[0] == s@[i as int] && rem[1] == s@[i + 1]);
                assert(rem.skip(2) =~= s@.skip(i + 2));
            }
            i = i + 2;
        } else {
            out.append(s.substring_char(i, i + 1));
            proof {
                let rem = s@.skip(i as int);
                assert(rem[0] == s@[i as int]);
                assert(rem.skip(1) =~= s@.skip(i + 1));
                assert(s@.subrange(i as int, i + 1int) =~= seq![s@[i as int]]);
            }
            i = i + 1;
        }
    }
    proof {
        assert(s@.skip(n as int) =~= Seq::<char>::empty());
    }
    out
}

/// Trims leading and trailing blanks.
fn trim_str(s: &str) -> (r: String)
    ensures
        r@ == trimmed(s@),
{
    let n = s.unicode_len();
    proof {
        assert(s@.take(n as int) =~= s@);
    }
    let mut j = n;
    while j > 0 && blank_char(s.get_char(j - 1))
        invariant
            0 <= j <= n,
            n == s@.len(),
            trimmed_end(s@) == trimmed_end(s@.take(j as int)),
        decreases j,
    {
        proof {
            assert(s@.take(j as int).last() == s@[j - 1]);
            assert(s@.take(j as int).drop_last() =~= s@.take(j - 1));
        }
        j = j - 1;
    }
    proof {
        if j > 0 {
            assert(s@.take(j as int).last() == s@[j - 1]);
        } else {
            assert(s@.take(0) =~= Seq::<char>::empty());
        }
        assert(trimmed_end(s@) == s@.take(j as int));
        assert(s@.take(j as int).skip(0) =~= s@.take(j as int));
    }
    let mut i: usize = 0;
    while i < j && blank_char(s.get_char(i))
        invariant
            0 <= i <= j <= n,
            n == s@.len(),
            trimmed_end(s@) == s@.take(j as int),
            trimmed_start(s@.take(j as int)) == trimmed_start(s@.take(j as int).skip(i as int)),
        decreases j - i,
    {
        proof {
            let cur = s@.take(j as int).skip(i as int);
            assert(cur[0] == s@[i as int]);
            assert(cur.drop_first() =~= s@.take(j as int).skip(i + 1));
        }
        i = i + 1;
    }
    proof {
        let cur = s@.take(j as int).skip(i as int);
        if i < j {
            assert(cur[0] == s@[i as int]);
        }
        assert(trimmed_start(cur) == cur);
        assert(cur =~= s@.subrange(i as int, j as int));
    }
    s.substring_char(i, j).to_owned()
}

/// Normalises a stored shell command into one runnable line: trailing blanks
/// go from each line, lines are joined with single spaces, literal
/// backslashes are dropped, double spaces collapse once, and the result is
/// trimmed.
pub fn clean_command(raw: &str) -> (r: String)
    ensures
        r@ == cleaned(raw@),
{
    let joined = join_lines(raw);
    let stripped = strip_backslashes(joined.as_str());
    let collapsed_text = collapse_spaces(stripped.as_str());
    trim_str(collapsed_text.as_str())
}

/// Whether a character may appear in a `${name}` token.
pub open spec fn is_ident_char(c: char) -> bool {
    (('a' as u32) <= (c as u32) && (c as u32) <= ('z' as u32)) || (('A' as u32) <= (c as u32) && (
    c as u32) <= ('Z' as u32)) || (('0' as u32) <= (c as u32) && (c as u32) <= ('9' as u32)) || c
        == '_'
}

/// Decides [`is_ident_char`].
fn ident_char(c: char) -> (r: bool)
    ensures
        r == is_ident_char(c),
{
    let v = c as u32;
    (('a' as u32) <= v && v <= ('z' as u32)) || (('A' as u32) <= v && v <= ('Z' as u32)) || ((
    '0' as u32) <= v && v <= ('9' as u32)) || c == '_'
}

/// The end of the run of token-name characters starting at `i`.
pub open spec fn ident_run_end(s: Seq<char>, i: int) -> int
    decreases s.len() - i,
{
    if i < 0 || i >= s.len() || !is_ident_char(s[i]) {
        i
    } else {
        ident_run_end(s, i + 1)
    }
}

/// A scan that saw only token-name characters from `i` to `e`, and at `e`
/// something else or the end, has found the run's end.
pub proof fn lemma_ident_run_end(s: Seq<char>, i: int, e: int)
    requires
        0 <= i <= e <= s.len(),
        forall|k: int| i <= k < e ==> is_ident_char(#[trigger] s[k]),
        e < s.len() ==> !is_ident_char(s[e]),
    ensures
        ident_run_end(s, i) == e,
    decreases e - i,
{
    if i < e {
        lemma_ident_run_end(s, i + 1, e);
    }
}

/// Where a `${name}` token at the front of the string ends — the position of
/// its closing brace — if one starts there: a dollar, an opening brace, one
/// or more name characters, a closing brace.
pub open spec fn token_end(s: Seq<char>) -> Option<int> {
    if s.len() >= 2 && s[0] == '$' && s[1] == '{' {
        let e = ident_run_end(s, 2);
        if 2 < e < s.len() && s[e] == '}' {
            Some(e)
        } else {
            None
        }
    } else {
        None
    }
}

/// Decides [`token_end`].
fn token_end_str(s: &str) -> (r: Option<usize>)
    ensures
        match r {
            Some(e) => token_end(s@) == Some(e as int),
            None => token_end(s@) is None,
        },
{
    let n = s.unicode_len();
    if n < 2 || s.get_char(0) != '$' || s.get_char(1) != '{' {
        return None;
    }
    let mut e: usize = 2;
    while e < n && ident_char(s.get_char(e))
        invariant
            2 <= e <= n,
            n == s@.len(),
            forall|k: int| 2 <= k < e ==> is_ident_char(#[trigger] s@[k]),
        decreases n - e,
    {
        e = e + 1;
    }
    proof {
        lemma_ident_run_end(s@, 2, e as int);
    }
    if 2 < e && e < n {
        if s.get_char(e) == '}' {
            Some(e)
        } else {
            None
        }
    } else {
        None
    }
}

/// The first stored variable of that name, per the store's first-match read
/// semantics.
pub open spec fn lookup_variable(vars: Seq<Variable>, name: Seq<char>) -> Option<Variable>
    decreases vars.len(),
{
    if vars.len() == 0 {
        None
    } else if vars[0].name@ == name {
        Some(vars[0])
    } else {
        lookup_variable(vars.drop_first(), name)
    }
}

/// A first match under the name query is what [`lookup_variable`] yields.
proof fn lemma_lookup_found(vars: Seq<Variable>, name: String, i: int)
    requires
        first_match_at(vars, name_query(name), i),
    ensures
        lookup_variable(vars, name@) == Some(vars[i]),
    decreases i,
{
    if i > 0 {
        assert(!vars[0].q_matches(name_query(name)));
        assert(forall|k: int|
            0 <= k < i - 1 ==> vars.drop_first()[k] == vars[k + 1] && !(
            #[trigger] vars.drop_first()[k].q_matches(name_query(name))));
        lemma_lookup_found(vars.drop_first(), name, i - 1);
    }
}

/// No match under the name query means [`lookup_variable`] yields nothing.
proof fn lemma_lookup_missing(vars: Seq<Variable>, name: String)
    requires
        no_match(vars, name_query(name)),
    ensures
        lookup_variable(vars, name@) is None,
    decreases vars.len(),
{
    if vars.len() > 0 {
        assert(!vars[0].q_matches(name_query(name)));
        assert(forall|k: int|
            0 <= k < vars.len() - 1 ==> vars.drop_first()[k] == vars[k + 1] && !(
            #[trigger] vars.drop_first()[k].q_matches(name_query(name))));
        lemma_lookup_missing(vars.drop_first(), name);
    }
}

/// The result of one left-to-right substitution pass over the string: each
/// `${name}` token whose variable is stored locally is replaced by the
/// stored value; a token with no stored variable stays as it is and its name
/// is recorded as missing.  Substituted values are not scanned again.
pub open spec fn injected(s: Seq<char>, vars: Seq<Variable>) -> (Seq<char>, Seq<Seq<char>>)
    decreases s.len(),
{
    if s.len() == 0 {
        (Seq::empty(), Seq::empty())
    } else {
        match token_end(s) {
            Some(e) => {
                let name = s.subrange(2, e);
                let rest = injected(s.skip(e + 1), vars);
                match lookup_variable(vars, name) {
                    Some(v) => (v.value@ + rest.0, rest.1),
                    None => (s.take(e + 1) + rest.0, seq![name] + rest.1),
                }
            },
            None => {
                let rest = injected(s.drop_first(), vars);
                (seq![s[0]] + rest.0, rest.1)
            },
        }
    }
}

/// Substitutes stored variables into `${name}` tokens of a command string,
/// reading each name through the variable repository's local-only read.
/// Besides the substituted text, the names that had no stored variable come
/// back, for the caller to warn about; with none missing the text is fully
/// resolved.
pub fn inject_variables(db: &FlowletDb, command_str: &str) -> (r: (String, Vec<String>))
    ensures
        r.0@ == injected(command_str@, db.variables@).0,
        r.1.deep_view() == injected(command_str@, db.variables@).1,
    decreases command_str@.len(),
{
    let n = command_str.unicode_len();
    if n == 0 {
        let out: Vec<String> = Vec::new();
        proof {
            assert(out.deep_view() =~= Seq::<Seq<char>>::empty());
        }
        return (String::new(), out);
    }
    match token_end_str(command_str) {
        Some(e) => {
            let name = command_str.substring_char(2, e).to_owned();
            let rest_str = command_str.substring_char(e + 1, n);
            proof {
                assert(rest_str@ =~= command_str@.skip(e + 1));
                assert(name@ =~= command_str@.subrange(2, e as int));
            }
            let rest = inject_variables(db, rest_str);
            let found = Variable::read(
                db,
                ReadVariableInput {
                    query: Query::Eq(QueryField::Name, QueryValue::Text(name.clone())),
                },
            );
            match found {
                Some(var) => {
                    proof {
                        let i = choose|i: int|
                            #[trigger] first_match_at(db.variables@, name_query(name), i)
                                && var.eqv(db.variables@[i]);
                        lemma_lookup_found(db.variables@, name, i);
                    }
                    let mut out = var.value;
                    out.append(rest.0.as_str());
                    (out, rest.1)
                },
                None => {
                    proof {
                        lemma_lookup_missing(db.variables@, name);
                    }
                    let mut out = command_str.substring_char(0, e + 1).to_owned();
                    out.append(rest.0.as_str());
                    let mut missing: Vec<String> = Vec::new();
                    missing.push(name);
                    let mut rest_missing = rest.1;
                    let ghost rest_dv = rest_missing.deep_view();
                    missing.append(&mut rest_missing);
                    proof {
                        assert(missing.deep_view() =~= seq![
                            command_str@.subrange(2, e as int),
                        ] + rest_dv);
                        assert(out@ =~= command_str@.take(e + 1) + rest.0@);
                    }
                    (out, missing)
                },
            }
        },
        None => {
            let rest_str = command_str.substring_char(1, n);
            proof {
                assert(rest_str@ =~= command_str@.drop_first());
            }
            let rest = inject_variables(db, rest_str);
            let mut out = command_str.substring_char(0, 1).to_owned();
            out.append(rest.0.as_str());
            proof {
                assert(out@ =~= seq![command_str@[0]] + rest.0@);
            }
            (out, rest.1)
        },
    }
}

/// The comma-separated pieces of a tag list, each trimmed, empties dropped.
pub open spec fn split_tags_spec(s: Seq<char>) -> Seq<Seq<char>>
    decreases s.len(),
{
    let i = first_occ(s, ',');
    if 0 <= i < s.len() {
        let piece = trimmed(s.take(i));
        let rest = split_tags_spec(s.skip(i + 1));
        if piece.len() > 0 {
            seq![piece] + rest
        } else {
            rest
        }
    } else {
        let piece = trimmed(s);
        if piece.len() > 0 {
            seq![piece]
        } else {
            Seq::empty()
        }
    }
}

/// Splits a comma-separated tag list, trimming each tag and dropping empty
/// ones.
pub fn split_tags(s: &str) -> (r: Vec<String>)
    ensures
        r.deep_view() == split_tags_spec(s@),
    decreases s@.len(),
{
    let n = s.unicode_len();
    let mut i: usize = 0;
    while i < n && s.get_char(i) != ','
        invariant
            0 <= i <= n,
            n == s@.len(),
            forall|k: int| 0 <= k < i ==> s@[k] != ',',
        decreases n - i,
    {
        i = i + 1;
    }
    proof {
        lemma_first_occ(s@, ',', i as int);
    }
    if i == n {
        let piece = trim_str(s);
        let mut out: Vec<String> = Vec::new();
        if piece.as_str().unicode_len() > 0 {
            out.push(piece);
        }
        proof {
            assert(out.deep_view() =~= split_tags_spec(s@));
        }
        out
    } else {
        let piece = trim_str(s.substring_char(0, i));
        let rest_str = s.substring_char(i + 1, n);
        proof {
            assert(rest_str@ =~= s@.skip(i + 1));
        }
        let mut rest = split_tags(rest_str);
        let ghost rest_dv = rest.deep_view();
        let mut out: Vec<String> = Vec::new();
        if piece.as_str().unicode_len() > 0 {
            out.push(piece);
        }
        out.append(&mut rest);
        proof {
            assert(out.deep_view() =~= split_tags_spec(s@));
        }
        out
    }
}

/// A string cut to at most `max` characters, with a trailing marker when
/// something was cut.
pub open spec fn truncated(s: Seq<char>, max: nat) -> Seq<char> {
    if s.len() <= max {
        s
    } else {
        s.take(max as int) + "..."@
    }
}

/// Cuts a string for a fixed-width listing, marking the cut.
pub fn truncate_with_ellipsis(s: &str, max: usize) -> (r: String)
    ensures
        r@ == truncated(s@, max as nat),
{
    let n = s.unicode_len();
    if n <= max {
        s.to_owned()
    } else {
        let mut out = s.substring_char(0, max).to_owned();
        out.append("...");
        out
    }
}

/// The dot-separated segments of a lookup path, kept verbatim — empty
/// segments included.
pub open spec fn path_segments_spec(s: Seq<char>) -> Seq<Seq<char>>
    decreases s.len(),
{
    let i = first_occ(s, '.');
    if 0 <= i < s.len() {
        seq![s.take(i)] + path_segments_spec(s.skip(i + 1))
    } else {
        seq![s]
    }
}

/// Splits a dotted lookup path into its segments.
pub fn path_segments(s: &str) -> (r: Vec<String>)
    ensures
        r.deep_view() == path_segments_spec(s@),
    decreases s@.len(),
{
    let n = s.unicode_len();
    let mut i: usize = 0;
    while i < n && s.get_char(i) != '.'
        invariant
            0 <= i <= n,
            n == s@.len(),
            forall|k: int| 0 <= k < i ==> s@[k] != '.',
        decreases n - i,
    {
        i = i + 1;
    }
    proof {
        lemma_first_occ(s@, '.', i as int);
    }
    if i == n {
        let mut out: Vec<String> = Vec::new();
        out.push(s.to_owned());
        proof {
            assert(out.deep_view() =~= path_segments_spec(s@));
        }
        out
    } else {
        let piece = s.substring_char(0, i).to_owned();
        let rest_str = s.substring_char(i + 1, n);
        proof {
            assert(rest_str@ =~= s@.skip(i + 1));
        }
        let mut rest = path_segments(rest_str);
        let mut out: Vec<String> = Vec::new();
        out.push(piece);
        out.append(&mut rest);
        proof {
            assert(out.deep_view() =~= path_segments_spec(s@));
        }
        out
    }
}

} // verus!
