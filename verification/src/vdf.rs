//! Parser for Valve's KeyValues ("VDF") text format, the format of Steam's
//! `libraryfolders.vdf` and per-game `appmanifest_*.acf` files.
//!
//! The subset read is: quoted string keys and values (with `\` escaping the
//! next character), unquoted barewords, nested `{ }` blocks, and `//` line
//! comments. The grammar is stated below as spec functions over the input's
//! characters; `parse` is proved to compute exactly that.

use vstd::prelude::*;

use crate::text::{
    ascii_lower, chars_eq_ignore_ascii_case, chars_of, eq_ignore_ascii_case_spec, is_whitespace,
    is_ws, push_char,
};

verus! {

/// The mathematical value of a VDF node: a string, or an ordered list of
/// key/value children.
#[verifier::ext_equal]
pub enum SpecVdf {
    Str(Seq<char>),
    Obj(Seq<(Seq<char>, SpecVdf)>),
}

/// A parsed VDF node.
#[derive(Debug, PartialEq)]
pub enum VdfValue {
    Str(String),
    Obj(Vec<(String, VdfValue)>),
}

/// Why a document was refused.
#[derive(Debug, Clone, Copy, PartialEq, Eq, Structural)]
pub enum VdfError {
    /// The input ended inside a quoted string or before a key's value.
    UnexpectedEof,
    /// A `{` stood where a key belongs; the number is its byte offset.
    UnexpectedToken(usize),
}

impl VdfError {
    /// The human-readable description of the error.
    pub fn message(&self) -> (r: String)
        ensures
            r@ == self.message_spec(),
    {
        match self {
            VdfError::UnexpectedEof => "unexpected end of input while parsing VDF".to_owned(),
            VdfError::UnexpectedToken(n) => {
                let mut s = "unexpected token at byte offset ".to_owned();
                let d = crate::text::decimal_string(*n as u128);
                s.append(d.as_str());
                s
            },
        }
    }

    pub open spec fn message_spec(&self) -> Seq<char> {
        match self {
            VdfError::UnexpectedEof => "unexpected end of input while parsing VDF"@,
            VdfError::UnexpectedToken(n) => "unexpected token at byte offset "@
                + crate::text::decimal(*n as nat),
        }
    }
}

impl VdfValue {
    pub open spec fn view_vdf(self) -> SpecVdf
        decreases self,
    {
        match self {
            VdfValue::Str(s) => SpecVdf::Str(s@),
            VdfValue::Obj(es) => SpecVdf::Obj(
                Seq::new(
                    es.len() as nat,
                    |i: int|
                        if 0 <= i < es.len() {
                            (es@[i].0@, es@[i].1.view_vdf())
                        } else {
                            (Seq::empty(), SpecVdf::Str(Seq::empty()))
                        },
                ),
            ),
        }
    }
}

impl Clone for VdfValue {
    fn clone(&self) -> (r: Self)
        ensures
            r@ == self@,
        decreases self,
    {
        match self {
            VdfValue::Str(s) => VdfValue::Str(s.clone()),
            VdfValue::Obj(es) => {
                let mut out: Vec<(String, VdfValue)> = Vec::new();
                let mut i: usize = 0;
                while i < es.len()
                    invariant
                        i <= es@.len(),
                        *self == VdfValue::Obj(*es),
                        out@.len() == i,
                        entries_view(out@) == entries_view(es@).take(i as int),
                    decreases es.len() - i,
                {
                    assert(decreases_to!(*self => self->Obj_0));
                    assert(decreases_to!(*es => es@));
                    assert(decreases_to!(es@ => es@[i as int]));
                    assert(decreases_to!(es@[i as int] => es@[i as int].1));
                    let v = es[i].1.clone();
                    let k = es[i].0.clone();
                    assert(v.view_vdf() == es@[i as int].1.view_vdf());
                    let ghost before = out@;
                    out.push((k, v));
                    assert(out@ == before.push((k, v)));
                    assert(entries_view(out@)[i as int] == entries_view(es@)[i as int]);
                    i = i + 1;
                    assert(entries_view(out@) =~= entries_view(es@).take(i as int));
                }
                assert(entries_view(es@).take(es.len() as int) =~= entries_view(es@));
                proof {
                    lemma_obj_view(&out);
                    lemma_obj_view(es);
                }
                VdfValue::Obj(out)
            },
        }
    }
}

/// The view of a list of children.
pub open spec fn entries_view(es: Seq<(String, VdfValue)>) -> Seq<(Seq<char>, SpecVdf)> {
    Seq::new(es.len(), |i: int| (es[i].0@, es[i].1.view_vdf()))
}

impl View for VdfValue {
    type V = SpecVdf;

    open spec fn view(&self) -> SpecVdf {
        self.view_vdf()
    }
}

/// Index of the first child whose key equals `key` ignoring ASCII case,
/// searching from `i`.
pub open spec fn first_key_match(es: Seq<(Seq<char>, SpecVdf)>, key: Seq<char>, i: int) -> Option<
    int,
>
    decreases es.len() - i,
{
    if i < 0 || i >= es.len() {
        None
    } else if eq_ignore_ascii_case_spec(es[i].0, key) {
        Some(i)
    } else {
        first_key_match(es, key, i + 1)
    }
}

/// The child that `get` finds: the first whose key equals `key` ignoring
/// ASCII case.
pub open spec fn get_spec(v: SpecVdf, key: Seq<char>) -> Option<SpecVdf> {
    match v {
        SpecVdf::Obj(es) => match first_key_match(es, key, 0) {
            Some(i) => Some(es[i].1),
            None => None,
        },
        SpecVdf::Str(_) => None,
    }
}

/// The string-valued children of an object as a map; where a key repeats,
/// the last string value wins.
pub open spec fn flat_spec(es: Seq<(Seq<char>, SpecVdf)>) -> Map<Seq<char>, Seq<char>>
    decreases es.len(),
{
    if es.len() == 0 {
        Map::empty()
    } else {
        let m = flat_spec(es.drop_last());
        match es.last().1 {
            SpecVdf::Str(v) => m.insert(es.last().0, v),
            SpecVdf::Obj(_) => m,
        }
    }
}

pub proof fn lemma_first_key_match(es: Seq<(Seq<char>, SpecVdf)>, key: Seq<char>, i: int)
    requires
        0 <= i,
    ensures
        first_key_match(es, key, i) matches Some(j) ==> i <= j < es.len()
            && eq_ignore_ascii_case_spec(es[j].0, key),
        first_key_match(es, key, i) is None ==> forall|j: int|
            i <= j < es.len() ==> !eq_ignore_ascii_case_spec(#[trigger] es[j].0, key),
    decreases es.len() - i,
{
    if i < es.len() && !eq_ignore_ascii_case_spec(es[i].0, key) {
        lemma_first_key_match(es, key, i + 1);
    }
}

/// Looking a key up is blind to ASCII case: two keys that differ only in
/// the case of ASCII letters find the same child.
pub proof fn lemma_get_ignores_ascii_case(v: SpecVdf, k1: Seq<char>, k2: Seq<char>)
    requires
        eq_ignore_ascii_case_spec(k1, k2),
    ensures
        get_spec(v, k1) == get_spec(v, k2),
{
    if let SpecVdf::Obj(es) = v {
        lemma_first_key_match_ignores_case(es, k1, k2, 0);
    }
}

proof fn lemma_first_key_match_ignores_case(
    es: Seq<(Seq<char>, SpecVdf)>,
    k1: Seq<char>,
    k2: Seq<char>,
    i: int,
)
    requires
        eq_ignore_ascii_case_spec(k1, k2),
    ensures
        first_key_match(es, k1, i) == first_key_match(es, k2, i),
    decreases es.len() - i,
{
    if 0 <= i < es.len() {
        let name = es[i].0;
        assert(eq_ignore_ascii_case_spec(name, k1) == eq_ignore_ascii_case_spec(name, k2)) by {
            if eq_ignore_ascii_case_spec(name, k1) {
                assert forall|j: int| 0 <= j < name.len() implies ascii_lower(#[trigger] name[j])
                    == ascii_lower(k2[j]) by {
                    assert(ascii_lower(k1[j]) == ascii_lower(k2[j]));
                }
            }
            if eq_ignore_ascii_case_spec(name, k2) {
                assert forall|j: int| 0 <= j < name.len() implies ascii_lower(#[trigger] name[j])
                    == ascii_lower(k1[j]) by {
                    assert(ascii_lower(k1[j]) == ascii_lower(k2[j]));
                }
            }
        }
        lemma_first_key_match_ignores_case(es, k1, k2, i + 1);
    }
}

impl VdfValue {
    /// The string, if this node is a string.
    pub fn as_str(&self) -> (r: Option<&str>)
        ensures
            match self@ {
                SpecVdf::Str(s) => r matches Some(x) && x@ == s,
                SpecVdf::Obj(_) => r is None,
            },
    {
        match self {
            VdfValue::Str(s) => Some(s.as_str()),
            _ => None,
        }
    }

    /// The children, if this node is an object.
    pub fn as_obj(&self) -> (r: Option<&[(String, VdfValue)]>)
        ensures
            match self {
                VdfValue::Obj(es) => r matches Some(x) && x@ == es@,
                VdfValue::Str(_) => r is None,
            },
    {
        match self {
            VdfValue::Obj(entries) => Some(entries.as_slice()),
            _ => None,
        }
    }

    /// Looks up a direct child key (case-insensitive, matching Steam's own
    /// leniency): the first child whose key matches.
    pub fn get(&self, key: &str) -> (r: Option<&VdfValue>)
        ensures
            match get_spec(self@, key@) {
                Some(v) => r matches Some(x) && x@ == v,
                None => r is None,
            },
    {
        match self {
            VdfValue::Str(_) => None,
            VdfValue::Obj(entries) => {
                proof {
                    lemma_obj_view(entries);
                }
                let ghost es = entries_view(entries@);
                let k = chars_of(key);
                let mut i: usize = 0;
                while i < entries.len()
                    invariant
                        i <= entries@.len(),
                        es == entries_view(entries@),
                        self@ == SpecVdf::Obj(es),
                        k@ == key@,
                        first_key_match(es, key@, 0) == first_key_match(es, key@, i as int),
                    decreases entries.len() - i,
                {
                    let name = chars_of(entries[i].0.as_str());
                    if chars_eq_ignore_ascii_case(&name, &k) {
                        assert(es[i as int] == (entries@[i as int].0@, entries@[i as int].1@));
                        assert(first_key_match(es, key@, i as int) == Some(i as int));
                        return Some(&entries[i].1);
                    }
                    i = i + 1;
                }
                None
            },
        }
    }

    /// The object's direct string-valued children as a map (empty for a
    /// string node); where a key repeats, the last value wins.
    pub fn flat_strings(&self) -> (m: crate::string_map::StringMap)
        ensures
            m@ == match self@ {
                SpecVdf::Obj(es) => flat_spec(es),
                SpecVdf::Str(_) => Map::empty(),
            },
    {
        let mut map = crate::string_map::StringMap::new();
        if let VdfValue::Obj(entries) = self {
            proof {
                lemma_obj_view(entries);
            }
            let ghost es = entries_view(entries@);
            let mut i: usize = 0;
            assert(es.take(0) =~= Seq::<(Seq<char>, SpecVdf)>::empty());
            while i < entries.len()
                invariant
                    i <= entries@.len(),
                    es == entries_view(entries@),
                    map@ == flat_spec(es.take(i as int)),
                decreases entries.len() - i,
            {
                assert(es.take(i + 1).drop_last() =~= es.take(i as int));
                if let VdfValue::Str(s) = &entries[i].1 {
                    map.insert(entries[i].0.clone(), s.clone());
                }
                i = i + 1;
            }
            assert(es.take(entries.len() as int) =~= es);
        }
        map
    }
}

// ---------------------------------------------------------------------------
// The grammar, as spec functions over the input's characters.
// ---------------------------------------------------------------------------
/// Position just past the first newline at or after `i` (or the end).
pub open spec fn line_end(s: Seq<char>, i: int) -> int
    decreases s.len() - i,
{
    if i >= s.len() {
        s.len() as int
    } else if s[i] == '\n' {
        i + 1
    } else {
        line_end(s, i + 1)
    }
}

pub proof fn lemma_line_end(s: Seq<char>, i: int)
    requires
        0 <= i <= s.len(),
    ensures
        i <= line_end(s, i) <= s.len(),
    decreases s.len() - i,
{
    if i < s.len() && s[i] != '\n' {
        lemma_line_end(s, i + 1);
    }
}

/// Position of the next token start: whitespace and `//` comments skipped.
pub open spec fn skip_ignorable(s: Seq<char>, i: int) -> int
    decreases s.len() - i,
{
    if i < 0 || i >= s.len() {
        i
    } else if is_ws(s[i]) {
        skip_ignorable(s, i + 1)
    } else if s[i] == '/' && i + 1 < s.len() && s[i + 1] == '/' {
        proof {
            lemma_line_end(s, i + 2);
        }
        skip_ignorable(s, line_end(s, i + 2))
    } else {
        i
    }
}

pub proof fn lemma_skip_ignorable(s: Seq<char>, i: int)
    requires
        0 <= i <= s.len(),
    ensures
        i <= skip_ignorable(s, i) <= s.len(),
    decreases s.len() - i,
{
    if i < s.len() {
        if is_ws(s[i]) {
            lemma_skip_ignorable(s, i + 1);
        } else if s[i] == '/' && i + 1 < s.len() && s[i + 1] == '/' {
            lemma_line_end(s, i + 2);
            lemma_skip_ignorable(s, line_end(s, i + 2));
        }
    }
}

/// The body of a quoted string starting at `i` (just past the opening
/// quote): its unescaped characters and the position past the closing quote.
pub open spec fn quoted(s: Seq<char>, i: int) -> Result<(Seq<char>, int), VdfError>
    decreases s.len() - i,
{
    if i < 0 || i >= s.len() {
        Err(VdfError::UnexpectedEof)
    } else if s[i] == '"' {
        Ok((Seq::empty(), i + 1))
    } else if s[i] == '\\' {
        if i + 1 >= s.len() {
            Err(VdfError::UnexpectedEof)
        } else {
            match quoted(s, i + 2) {
                Ok((t, j)) => Ok((seq![s[i + 1]] + t, j)),
                Err(e) => Err(e),
            }
        }
    } else {
        match quoted(s, i + 1) {
            Ok((t, j)) => Ok((seq![s[i]] + t, j)),
            Err(e) => Err(e),
        }
    }
}

pub proof fn lemma_quoted(s: Seq<char>, i: int)
    requires
        0 <= i,
    ensures
        quoted(s, i) matches Ok((_, j)) ==> i < j <= s.len(),
        quoted(s, i) matches Err(e) ==> e == VdfError::UnexpectedEof,
    decreases s.len() - i,
{
    if 0 <= i < s.len() && s[i] != '"' {
        if s[i] == '\\' {
            if i + 1 < s.len() {
                lemma_quoted(s, i + 2);
            }
        } else {
            lemma_quoted(s, i + 1);
        }
    }
}

/// Whether `c` ends an unquoted word.
pub open spec fn ends_bareword(c: char) -> bool {
    is_ws(c) || c == '{' || c == '}'
}

/// End of the unquoted word whose remaining characters start at `i`.
pub open spec fn bare_end(s: Seq<char>, i: int) -> int
    decreases s.len() - i,
{
    if i < 0 || i >= s.len() || ends_bareword(s[i]) {
        i
    } else {
        bare_end(s, i + 1)
    }
}

pub proof fn lemma_bare_end(s: Seq<char>, i: int)
    requires
        0 <= i <= s.len(),
    ensures
        i <= bare_end(s, i) <= s.len(),
    decreases s.len() - i,
{
    if i < s.len() && !ends_bareword(s[i]) {
        lemma_bare_end(s, i + 1);
    }
}

/// A lexical token.
pub enum SpecToken {
    Str(Seq<char>),
    Open,
    Close,
}

/// The token found at or after `i`, with the position just past it; `None`
/// at the end of input.
pub open spec fn next_token(s: Seq<char>, i: int) -> Result<Option<(SpecToken, int)>, VdfError> {
    let j = skip_ignorable(s, i);
    if j < 0 || j >= s.len() {
        Ok(None)
    } else if s[j] == '{' {
        Ok(Some((SpecToken::Open, j + 1)))
    } else if s[j] == '}' {
        Ok(Some((SpecToken::Close, j + 1)))
    } else if s[j] == '"' {
        match quoted(s, j + 1) {
            Ok((t, k)) => Ok(Some((SpecToken::Str(t), k))),
            Err(e) => Err(e),
        }
    } else {
        let k = bare_end(s, j + 1);
        Ok(Some((SpecToken::Str(s.subrange(j, k)), k)))
    }
}

/// What the tokenizer finds from `i`: no token exactly when nothing but
/// whitespace and `//` comments remains; a token ends past `i`, within the
/// input; and the one error is an unterminated quoted string, which runs
/// out of input (`UnexpectedEof`).
pub proof fn lemma_next_token(s: Seq<char>, i: int)
    requires
        0 <= i <= s.len(),
    ensures
        next_token(s, i) == Ok::<Option<(SpecToken, int)>, VdfError>(None) <==> skip_ignorable(
            s,
            i,
        ) == s.len(),
        next_token(s, i) matches Ok(Some((_, j))) ==> i < j <= s.len(),
        next_token(s, i) matches Err(e) ==> e == VdfError::UnexpectedEof && s[skip_ignorable(s, i)]
            == '"',
{
    lemma_skip_ignorable(s, i);
    let j = skip_ignorable(s, i);
    if j < s.len() {
        lemma_quoted(s, j + 1);
        lemma_bare_end(s, j + 1);
    }
}

/// The children read from position `i` up to the end of input or the first
/// unmatched `}`, and the position after that. A `{` where a key belongs is
/// refused with its position, counted here in characters.
pub open spec fn entries(s: Seq<char>, i: int) -> Result<(Seq<(Seq<char>, SpecVdf)>, int), VdfError>
    decreases s.len() - i,
{
    if i < 0 || i > s.len() {
        Err(VdfError::UnexpectedEof)
    } else {
        proof {
            lemma_next_token(s, i);
        }
        match next_token(s, i) {
            Err(e) => Err(e),
            Ok(None) => Ok((Seq::empty(), s.len() as int)),
            Ok(Some((SpecToken::Close, j))) => Ok((Seq::empty(), j)),
            Ok(Some((SpecToken::Open, _))) => Err(
                VdfError::UnexpectedToken(skip_ignorable(s, i) as usize),
            ),
            Ok(Some((SpecToken::Str(k), j))) => {
                proof {
                    lemma_next_token(s, j);
                }
                match next_token(s, j) {
                    Err(e) => Err(e),
                    Ok(Some((SpecToken::Str(v), m))) => match entries(s, m) {
                        Ok((rest, p)) => Ok((seq![(k, SpecVdf::Str(v))] + rest, p)),
                        Err(e) => Err(e),
                    },
                    Ok(Some((SpecToken::Open, m))) => match entries(s, m) {
                        Ok((inner, p)) => if m <= p <= s.len() {
                            match entries(s, p) {
                                Ok((rest, q)) => Ok((seq![(k, SpecVdf::Obj(inner))] + rest, q)),
                                Err(e) => Err(e),
                            }
                        } else {
                            Err(VdfError::UnexpectedEof)
                        },
                        Err(e) => Err(e),
                    },
                    _ => Err(VdfError::UnexpectedEof),
                }
            },
        }
    }
}

pub proof fn lemma_entries(s: Seq<char>, i: int)
    ensures
        entries(s, i) matches Ok((_, p)) ==> i <= p <= s.len(),
    decreases s.len() - i,
{
    if 0 <= i <= s.len() {
        lemma_next_token(s, i);
        if let Ok(Some((SpecToken::Str(k), j))) = next_token(s, i) {
            lemma_next_token(s, j);
            match next_token(s, j) {
                Ok(Some((SpecToken::Str(v), m))) => {
                    lemma_entries(s, m);
                },
                Ok(Some((SpecToken::Open, m))) => {
                    lemma_entries(s, m);
                    if let Ok((inner, p)) = entries(s, m) {
                        lemma_entries(s, p);
                    }
                },
                _ => {},
            }
        }
    }
}

/// A misplaced token's position lies within the document.
pub proof fn lemma_error_position(s: Seq<char>, i: int)
    ensures
        entries(s, i) matches Err(VdfError::UnexpectedToken(k)) ==> k <= s.len(),
    decreases s.len() - i,
{
    if 0 <= i <= s.len() {
        lemma_next_token(s, i);
        lemma_skip_ignorable(s, i);
        if let Ok(Some((SpecToken::Str(k), j))) = next_token(s, i) {
            lemma_next_token(s, j);
            match next_token(s, j) {
                Ok(Some((SpecToken::Str(v), m))) => {
                    lemma_error_position(s, m);
                },
                Ok(Some((SpecToken::Open, m))) => {
                    lemma_error_position(s, m);
                    lemma_entries(s, m);
                    if let Ok((inner, p)) = entries(s, m) {
                        lemma_error_position(s, p);
                    }
                },
                _ => {},
            }
        }
    }
}

/// The offset in bytes, in the document's UTF-8 encoding, of its character
/// at position `k` (as `str::len` counts them).
pub open spec fn byte_offset(s: Seq<char>, k: int) -> usize {
    vstd::utf8::encode_utf8(s.take(k)).len() as usize
}

/// The error of a document, with a misplaced token's position given as its
/// byte offset.
pub open spec fn located_error(s: Seq<char>, e: VdfError) -> VdfError {
    match e {
        VdfError::UnexpectedToken(k) => VdfError::UnexpectedToken(byte_offset(s, k as int)),
        VdfError::UnexpectedEof => VdfError::UnexpectedEof,
    }
}

/// The document: every top-level key/value pair, as one root object.
pub open spec fn parse_spec(s: Seq<char>) -> Result<SpecVdf, VdfError> {
    match entries(s, 0) {
        Ok((es, _)) => Ok(SpecVdf::Obj(es)),
        Err(e) => Err(located_error(s, e)),
    }
}

// ---------------------------------------------------------------------------
// Reading a document that follows other text: positions shift, nothing else.
// ---------------------------------------------------------------------------
pub open spec fn shift_quoted(r: Result<(Seq<char>, int), VdfError>, n: int) -> Result<(Seq<char>, int), VdfError> {
    match r {
        Ok((c, k)) => Ok((c, n + k)),
        Err(e) => Err(e),
    }
}

pub open spec fn shift_token(r: Result<Option<(SpecToken, int)>, VdfError>, n: int) -> Result<Option<(SpecToken, int)>, VdfError> {
    match r {
        Ok(Some((t, k))) => Ok(Some((t, n + k))),
        other => other,
    }
}

pub open spec fn shift_entries(r: Result<(Seq<(Seq<char>, SpecVdf)>, int), VdfError>, n: int) -> Result<(Seq<(Seq<char>, SpecVdf)>, int), VdfError> {
    match r {
        Ok((es, k)) => Ok((es, n + k)),
        Err(VdfError::UnexpectedToken(k)) => Err(VdfError::UnexpectedToken((n + k) as usize)),
        Err(e) => Err(e),
    }
}

proof fn lemma_line_end_shift(p: Seq<char>, t: Seq<char>, j: int)
    requires
        0 <= j <= t.len(),
    ensures
        line_end(p + t, p.len() + j) == p.len() + line_end(t, j),
    decreases t.len() - j,
{
    let s = p + t;
    if j < t.len() {
        assert(s[p.len() + j] == t[j]);
        if t[j] != '\n' {
            lemma_line_end_shift(p, t, j + 1);
        }
    }
}

proof fn lemma_skip_shift(p: Seq<char>, t: Seq<char>, j: int)
    requires
        0 <= j <= t.len(),
    ensures
        skip_ignorable(p + t, p.len() + j) == p.len() + skip_ignorable(t, j),
    decreases t.len() - j,
{
    let s = p + t;
    let n = p.len() as int;
    if j < t.len() {
        assert(s[n + j] == t[j]);
        if is_ws(t[j]) {
            lemma_skip_shift(p, t, j + 1);
        } else if t[j] == '/' && j + 1 < t.len() && t[j + 1] == '/' {
            assert(s[n + j + 1] == t[j + 1]);
            lemma_line_end(t, j + 2);
            lemma_line_end_shift(p, t, j + 2);
            lemma_skip_shift(p, t, line_end(t, j + 2));
        }
    }
}

proof fn lemma_quoted_shift(p: Seq<char>, t: Seq<char>, j: int)
    requires
        0 <= j,
    ensures
        quoted(p + t, p.len() + j) == shift_quoted(quoted(t, j), p.len() as int),
    decreases t.len() - j,
{
    let s = p + t;
    let n = p.len() as int;
    if j < t.len() {
        assert(s[n + j] == t[j]);
        if t[j] == '\\' {
            if j + 1 < t.len() {
                assert(s[n + j + 1] == t[j + 1]);
                lemma_quoted_shift(p, t, j + 2);
            }
        } else if t[j] != '"' {
            lemma_quoted_shift(p, t, j + 1);
        }
    }
}

proof fn lemma_bare_end_shift(p: Seq<char>, t: Seq<char>, j: int)
    requires
        0 <= j <= t.len(),
    ensures
        bare_end(p + t, p.len() + j) == p.len() + bare_end(t, j),
    decreases t.len() - j,
{
    let s = p + t;
    if j < t.len() {
        assert(s[p.len() + j] == t[j]);
        if !ends_bareword(t[j]) {
            lemma_bare_end_shift(p, t, j + 1);
        }
    }
}

proof fn lemma_next_token_shift(p: Seq<char>, t: Seq<char>, j: int)
    requires
        0 <= j <= t.len(),
    ensures
        next_token(p + t, p.len() + j) == shift_token(next_token(t, j), p.len() as int),
{
    let s = p + t;
    let n = p.len() as int;
    lemma_skip_shift(p, t, j);
    lemma_skip_ignorable(t, j);
    let k = skip_ignorable(t, j);
    if k < t.len() {
        assert(s[n + k] == t[k]);
        lemma_quoted_shift(p, t, k + 1);
        lemma_bare_end_shift(p, t, k + 1);
        lemma_bare_end(t, k + 1);
        assert(s.subrange(n + k, n + bare_end(t, k + 1)) =~= t.subrange(k, bare_end(t, k + 1)));
    }
}

proof fn lemma_entries_shift(p: Seq<char>, t: Seq<char>, j: int)
    requires
        0 <= j <= t.len(),
        p.len() + t.len() <= usize::MAX,
    ensures
        entries(p + t, p.len() + j) == shift_entries(entries(t, j), p.len() as int),
    decreases t.len() - j,
{
    let s = p + t;
    let n = p.len() as int;
    lemma_next_token_shift(p, t, j);
    lemma_next_token(t, j);
    if let Ok(Some((SpecToken::Str(k), a))) = next_token(t, j) {
        lemma_next_token_shift(p, t, a);
        lemma_next_token(t, a);
        match next_token(t, a) {
            Ok(Some((SpecToken::Str(v), m))) => {
                lemma_entries_shift(p, t, m);
            },
            Ok(Some((SpecToken::Open, m))) => {
                lemma_entries_shift(p, t, m);
                lemma_entries(t, m);
                if let Ok((inner, q)) = entries(t, m) {
                    lemma_entries_shift(p, t, q);
                }
            },
            _ => {},
        }
    }
}

/// Text that may stand in front of a document without changing it:
/// whitespace and `//` comment lines, ending with a line break.
pub open spec fn is_ignorable_prefix(p: Seq<char>) -> bool {
    skip_ignorable(p, 0) == p.len() && (p.len() == 0 || p.last() == '\n')
}

proof fn lemma_line_end_within(p: Seq<char>, t: Seq<char>, j: int)
    requires
        0 <= j < p.len(),
        p.last() == '\n',
    ensures
        line_end(p + t, j) == line_end(p, j),
        line_end(p, j) <= p.len(),
    decreases p.len() - j,
{
    assert((p + t)[j] == p[j]);
    if p[j] != '\n' {
        assert(j + 1 < p.len());
        lemma_line_end_within(p, t, j + 1);
    }
}

proof fn lemma_skip_through_prefix(p: Seq<char>, t: Seq<char>, i: int)
    requires
        0 <= i <= p.len(),
        skip_ignorable(p, i) == p.len(),
        p.len() == 0 || p.last() == '\n',
    ensures
        skip_ignorable(p + t, i) == skip_ignorable(p + t, p.len() as int),
    decreases p.len() - i,
{
    let s = p + t;
    if i < p.len() {
        assert(s[i] == p[i]);
        if is_ws(p[i]) {
            lemma_skip_through_prefix(p, t, i + 1);
        } else if p[i] == '/' && i + 1 < p.len() && p[i + 1] == '/' {
            assert(s[i + 1] == p[i + 1]);
            assert(i + 2 < p.len());
            lemma_line_end_within(p, t, i + 2);
            lemma_line_end(p, i + 2);
            lemma_skip_through_prefix(p, t, line_end(p, i + 2));
        } else {
            assert(skip_ignorable(p, i) == i);
        }
    }
}

proof fn lemma_encode_concat(a: Seq<char>, b: Seq<char>)
    ensures
        vstd::utf8::encode_utf8(a + b) == vstd::utf8::encode_utf8(a) + vstd::utf8::encode_utf8(b),
    decreases a.len(),
{
    if a.len() == 0 {
        assert(a + b =~= b);
        assert(vstd::utf8::encode_utf8(a) + vstd::utf8::encode_utf8(b) =~= vstd::utf8::encode_utf8(
            b,
        ));
    } else {
        assert((a + b).drop_first() =~= a.drop_first() + b);
        assert((a + b)[0] == a[0]);
        lemma_encode_concat(a.drop_first(), b);
        let head = vstd::utf8::encode_scalar(a[0] as u32);
        assert(head + (vstd::utf8::encode_utf8(a.drop_first()) + vstd::utf8::encode_utf8(b)) =~= (
        head + vstd::utf8::encode_utf8(a.drop_first())) + vstd::utf8::encode_utf8(b));
    }
}

proof fn lemma_encode_at_least_chars(a: Seq<char>)
    ensures
        vstd::utf8::encode_utf8(a).len() >= a.len(),
    decreases a.len(),
{
    if a.len() > 0 {
        lemma_encode_at_least_chars(a.drop_first());
    }
}

/// Whitespace and `//` comment lines in front of a document are skipped:
/// the document reads the same with or without them, except that a
/// misplaced token's byte offset grows by the length of the prefix in bytes.
pub proof fn lemma_leading_comments_are_skipped(p: Seq<char>, t: Seq<char>)
    requires
        is_ignorable_prefix(p),
        vstd::utf8::encode_utf8(p + t).len() <= usize::MAX,
    ensures
        parse_spec(p + t) == match parse_spec(t) {
            Err(VdfError::UnexpectedToken(k)) => Err(
                VdfError::UnexpectedToken((vstd::utf8::encode_utf8(p).len() + k) as usize),
            ),
            other => other,
        },
{
    let s = p + t;
    let n = p.len() as int;
    lemma_encode_at_least_chars(s);
    lemma_skip_through_prefix(p, t, 0);
    lemma_entries_shift(p, t, 0);
    assert(next_token(s, 0) == next_token(s, n));
    assert(entries(s, 0) == entries(s, n));
    lemma_error_position(t, 0);
    if let Err(VdfError::UnexpectedToken(k)) = entries(t, 0) {
        let kk = k as int;
        assert(s.take(n + kk) =~= p + t.take(kk));
        assert(t =~= t.take(kk) + t.skip(kk));
        lemma_encode_concat(p, t.take(kk));
        lemma_encode_concat(t.take(kk), t.skip(kk));
        lemma_encode_concat(p, t);
    }
}

// ---------------------------------------------------------------------------
// The executable parser.
// ---------------------------------------------------------------------------
/// `acc` put in front of the children that `r` found.
pub open spec fn prepend_entries(
    acc: Seq<(Seq<char>, SpecVdf)>,
    r: Result<(Seq<(Seq<char>, SpecVdf)>, int), VdfError>,
) -> Result<(Seq<(Seq<char>, SpecVdf)>, int), VdfError> {
    match r {
        Ok((es, p)) => Ok((acc + es, p)),
        Err(e) => Err(e),
    }
}

/// `acc` put in front of the characters of the quoted string that `r` found.
pub open spec fn prepend_chars(acc: Seq<char>, r: Result<(Seq<char>, int), VdfError>) -> Result<
    (Seq<char>, int),
    VdfError,
> {
    match r {
        Ok((t, j)) => Ok((acc + t, j)),
        Err(e) => Err(e),
    }
}

#[derive(Debug, PartialEq)]
enum Token {
    Str(String),
    OpenBrace,
    CloseBrace,
}

impl Token {
    spec fn view_token(self) -> SpecToken {
        match self {
            Token::Str(s) => SpecToken::Str(s@),
            Token::OpenBrace => SpecToken::Open,
            Token::CloseBrace => SpecToken::Close,
        }
    }
}

/// A cursor over the characters of a document.
struct Tokenizer {
    chars: Vec<char>,
    pos: usize,
}

impl Tokenizer {
    spec fn wf(self) -> bool {
        self.pos <= self.chars@.len()
    }

    fn new(src: &str) -> (t: Tokenizer)
        ensures
            t.chars@ == src@,
            t.pos == 0,
    {
        Tokenizer { chars: chars_of(src), pos: 0 }
    }

    /// Moves past whitespace and `//` comments.
    fn skip_ignorable(&mut self)
        requires
            old(self).wf(),
        ensures
            final(self).chars@ == old(self).chars@,
            final(self).pos == skip_ignorable(old(self).chars@, old(self).pos as int),
    {
        let ghost s = self.chars@;
        let ghost start = self.pos as int;
        let len = self.chars.len();
        loop
            invariant
                self.chars@ == s,
                len == s.len(),
                self.pos <= len,
                skip_ignorable(s, self.pos as int) == skip_ignorable(s, start),
            ensures
                self.chars@ == s,
                self.pos == skip_ignorable(s, start),
            decreases len - self.pos,
        {
            if self.pos >= len {
                break;
            }
            let c = self.chars[self.pos];
            if is_whitespace(c) {
                self.pos = self.pos + 1;
            } else if c == '/' && self.pos + 1 < len && self.chars[self.pos + 1] == '/' {
                let ghost from = self.pos + 2;
                let mut j = self.pos + 2;
                while j < len && self.chars[j] != '\n'
                    invariant
                        self.chars@ == s,
                        len == s.len(),
                        from <= j <= len,
                        line_end(s, j as int) == line_end(s, from as int),
                    decreases len - j,
                {
                    j = j + 1;
                }
                if j < len {
                    j = j + 1;
                }
                self.pos = j;
            } else {
                break;
            }
        }
    }

    /// Reads a quoted string whose body starts at the current position.
    fn read_quoted(&mut self) -> (r: Result<String, VdfError>)
        requires
            old(self).wf(),
        ensures
            final(self).chars@ == old(self).chars@,
            final(self).wf(),
            match quoted(old(self).chars@, old(self).pos as int) {
                Ok((t, j)) => r matches Ok(v) && v@ == t && final(self).pos == j,
                Err(e) => r == Err::<String, VdfError>(e),
            },
    {
        let ghost s = self.chars@;
        let ghost start = self.pos as int;
        let len = self.chars.len();
        let mut acc = String::new();
        assert(acc@ + Seq::<char>::empty() =~= acc@);
        loop
            invariant
                self.chars@ == s,
                len == s.len(),
                self.pos <= len,
                s == old(self).chars@,
                start == old(self).pos,
                quoted(s, start) == prepend_chars(acc@, quoted(s, self.pos as int)),
            decreases len - self.pos,
        {
            if self.pos >= len {
                return Err(VdfError::UnexpectedEof);
            }
            let c = self.chars[self.pos];
            if c == '"' {
                self.pos = self.pos + 1;
                assert(acc@ + Seq::<char>::empty() =~= acc@);
                return Ok(acc);
            } else if c == '\\' {
                if self.pos + 1 >= len {
                    return Err(VdfError::UnexpectedEof);
                }
                let n = self.chars[self.pos + 1];
                let ghost before = acc@;
                push_char(&mut acc, n);
                self.pos = self.pos + 2;
                proof {
                    if let Ok((t, j)) = quoted(s, self.pos as int) {
                        assert(before + (seq![n] + t) =~= acc@ + t);
                    }
                }
            } else {
                let ghost before = acc@;
                push_char(&mut acc, c);
                self.pos = self.pos + 1;
                proof {
                    if let Ok((t, j)) = quoted(s, self.pos as int) {
                        assert(before + (seq![c] + t) =~= acc@ + t);
                    }
                }
            }
        }
    }

    /// Reads the next token, if any.
    fn next_token(&mut self) -> (r: Result<Option<Token>, VdfError>)
        requires
            old(self).wf(),
        ensures
            final(self).chars@ == old(self).chars@,
            final(self).wf(),
            match next_token(old(self).chars@, old(self).pos as int) {
                Err(e) => r == Err::<Option<Token>, VdfError>(e),
                Ok(None) => r matches Ok(None) && final(self).pos == old(self).chars@.len(),
                Ok(Some((t, j))) => r matches Ok(Some(tok)) && tok.view_token() == t
                    && final(self).pos == j,
            },
    {
        let ghost s = self.chars@;
        proof {
            lemma_skip_ignorable(s, self.pos as int);
        }
        self.skip_ignorable();
        let len = self.chars.len();
        if self.pos >= len {
            return Ok(None);
        }
        let start = self.pos;
        let c = self.chars[start];
        self.pos = start + 1;
        if c == '{' {
            Ok(Some(Token::OpenBrace))
        } else if c == '}' {
            Ok(Some(Token::CloseBrace))
        } else if c == '"' {
            proof {
                lemma_quoted(s, start + 1);
            }
            match self.read_quoted() {
                Ok(t) => Ok(Some(Token::Str(t))),
                Err(e) => Err(e),
            }
        } else {
            let mut word = String::new();
            push_char(&mut word, c);
            assert(word@ =~= s.subrange(start as int, start + 1));
            while self.pos < len && !(is_whitespace(self.chars[self.pos]) || self.chars[self.pos]
                == '{' || self.chars[self.pos] == '}')
                invariant
                    self.chars@ == s,
                    len == s.len(),
                    start < self.pos <= len,
                    word@ == s.subrange(start as int, self.pos as int),
                    bare_end(s, self.pos as int) == bare_end(s, start + 1),
                decreases len - self.pos,
            {
                push_char(&mut word, self.chars[self.pos]);
                self.pos = self.pos + 1;
                assert(word@ =~= s.subrange(start as int, self.pos as int));
            }
            Ok(Some(Token::Str(word)))
        }
    }
}

/// An object's view lists the views of its children.
pub proof fn lemma_obj_view(es: &Vec<(String, VdfValue)>)
    ensures
        VdfValue::Obj(*es).view_vdf() == SpecVdf::Obj(entries_view(es@)),
{
    let v = VdfValue::Obj(*es);
    if let SpecVdf::Obj(x) = v.view_vdf() {
        assert(x =~= entries_view(es@));
    }
}

proof fn lemma_prepend_one(
    acc: Seq<(Seq<char>, SpecVdf)>,
    x: (Seq<char>, SpecVdf),
    rest: Seq<(Seq<char>, SpecVdf)>,
)
    ensures
        acc + (seq![x] + rest) == acc.push(x) + rest,
{
    assert(acc + (seq![x] + rest) =~= acc.push(x) + rest);
}

/// Reads key/value pairs up to the end of input or an unmatched `}`.
fn parse_entries(tok: &mut Tokenizer) -> (r: Result<Vec<(String, VdfValue)>, VdfError>)
    requires
        old(tok).wf(),
    ensures
        final(tok).chars@ == old(tok).chars@,
        final(tok).wf(),
        match entries(old(tok).chars@, old(tok).pos as int) {
            Ok((es, p)) => r matches Ok(v) && entries_view(v@) == es && final(tok).pos == p,
            Err(e) => r == Err::<Vec<(String, VdfValue)>, VdfError>(e),
        },
    decreases old(tok).chars@.len() - old(tok).pos,
{
    let ghost s = tok.chars@;
    let ghost start = tok.pos as int;
    let mut out: Vec<(String, VdfValue)> = Vec::new();
    assert(entries_view(out@) + Seq::<(Seq<char>, SpecVdf)>::empty() =~= entries_view(out@));
    assert(entries_view(out@) =~= Seq::<(Seq<char>, SpecVdf)>::empty());
    loop
        invariant
            tok.chars@ == s,
            s == old(tok).chars@,
            start == old(tok).pos,
            tok.wf(),
            start <= tok.pos,
            entries(s, start) == prepend_entries(entries_view(out@), entries(s, tok.pos as int)),
        decreases s.len() - tok.pos,
    {
        let ghost i = tok.pos as int;
        proof {
            lemma_next_token(s, i);
        }
        let key = match tok.next_token() {
            Err(e) => {
                return Err(e);
            },
            Ok(None) => {
                assert(entries_view(out@) + Seq::<(Seq<char>, SpecVdf)>::empty() =~= entries_view(
                    out@,
                ));
                return Ok(out);
            },
            Ok(Some(Token::CloseBrace)) => {
                assert(entries_view(out@) + Seq::<(Seq<char>, SpecVdf)>::empty() =~= entries_view(
                    out@,
                ));
                return Ok(out);
            },
            Ok(Some(Token::OpenBrace)) => {
                return Err(VdfError::UnexpectedToken(tok.pos - 1));
            },
            Ok(Some(Token::Str(k))) => k,
        };
        let ghost j = tok.pos as int;
        proof {
            lemma_next_token(s, j);
        }
        let value = match tok.next_token() {
            Err(e) => {
                return Err(e);
            },
            Ok(Some(Token::Str(v))) => VdfValue::Str(v),
            Ok(Some(Token::OpenBrace)) => {
                let ghost m = tok.pos as int;
                proof {
                    lemma_entries(s, m);
                }
                match parse_entries(tok) {
                    Ok(inner) => {
                        let ghost p = tok.pos as int;
                        proof {
                            lemma_obj_view(&inner);
                        }
                        VdfValue::Obj(inner)
                    },
                    Err(e) => {
                        return Err(e);
                    },
                }
            },
            _ => {
                return Err(VdfError::UnexpectedEof);
            },
        };
        let ghost before = entries_view(out@);
        let ghost item = (key@, value.view_vdf());
        out.push((key, value));
        proof {
            assert(entries_view(out@) =~= before.push(item));
            if let Ok((rest, p)) = entries(s, tok.pos as int) {
                lemma_prepend_one(before, item, rest);
            }
        }
    }
}

/// Parses a VDF document into a single root object holding all top-level
/// keys.
pub fn parse(input: &str) -> (r: Result<VdfValue, VdfError>)
    ensures
        match parse_spec(input@) {
            Ok(v) => r matches Ok(x) && x@ == v,
            Err(e) => r == Err::<VdfValue, VdfError>(e),
        },
{
    let mut tok = Tokenizer::new(input);
    match parse_entries(&mut tok) {
        Ok(entries) => {
            proof {
                lemma_obj_view(&entries);
            }
            Ok(VdfValue::Obj(entries))
        },
        Err(VdfError::UnexpectedToken(k)) => {
            proof {
                lemma_error_position(input@, 0);
            }
            let before = input.substring_char(0, k);
            Err(VdfError::UnexpectedToken(before.len()))
        },
        Err(e) => Err(e),
    }
}

} // verus!
