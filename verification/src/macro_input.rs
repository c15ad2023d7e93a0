//! The input of the `bayesian_filter!` macro:
//! `spec = "<path>", name = <Ident>`.
//!
//! The input is the printed text of the macro's token stream: tokens
//! separated by white space, with no comments (a comment in the text is not
//! skipped between the layout tokens). The layout (the two keywords, the `=`
//! signs and the separating comma) is read here; the string literal and the
//! identifier are read by `syn`, as the macro reads them.
use vstd::prelude::*;

use crate::text::{chars_of, is_token_space, matches_at, occurs_at, token_space};

verus! {

broadcast use vstd::string::group_string_axioms;

/// Why a macro input was refused.
#[derive(Debug, Clone, Copy, PartialEq, Eq, Structural)]
pub enum MacroInputError {
    /// The input does not begin with the keyword `spec`.
    ExpectedSpecKeyword,
    /// A keyword is not followed by `=`.
    ExpectedEquals,
    /// No `,` follows the path.
    ExpectedComma,
    /// The `,` is not followed by the keyword `name`.
    ExpectedNameKeyword,
    /// What stands between `spec =` and the comma is not one string literal.
    InvalidSpecPath,
    /// What follows `name =` is not one identifier (keywords are refused).
    InvalidName,
}

/// The parsed macro input: the path of the model file and the name of the
/// filter type to emit.
pub struct MacroInput {
    pub spec_path: String,
    pub name: String,
}

impl View for MacroInput {
    type V = (Seq<char>, Seq<char>);

    open spec fn view(&self) -> (Seq<char>, Seq<char>) {
        (self.spec_path@, self.name@)
    }
}

/// The spaces that both of syn's lexers (rustc's and its own) skip around a
/// token.
pub open spec fn is_plain_space(c: char) -> bool {
    c == ' ' || c == '\t' || c == '\n'
}

pub open spec fn trim_start_plain(s: Seq<char>) -> Seq<char>
    decreases s.len(),
{
    if s.len() > 0 && is_plain_space(s[0]) {
        trim_start_plain(s.drop_first())
    } else {
        s
    }
}

pub open spec fn trim_end_plain(s: Seq<char>) -> Seq<char>
    decreases s.len(),
{
    if s.len() > 0 && is_plain_space(s.last()) {
        trim_end_plain(s.drop_last())
    } else {
        s
    }
}

/// `s` without plain spaces at either end.
pub open spec fn trim_plain(s: Seq<char>) -> Seq<char> {
    trim_end_plain(trim_start_plain(s))
}

/// The character that the simple escape `\c` stands for.
pub open spec fn simple_escape(c: char) -> Option<char> {
    if c == 'n' {
        Some('\n')
    } else if c == 'r' {
        Some('\r')
    } else if c == 't' {
        Some('\t')
    } else if c == '\\' {
        Some('\\')
    } else if c == '0' {
        Some('\0')
    } else if c == '\'' {
        Some('\'')
    } else if c == '"' {
        Some('"')
    } else {
        None
    }
}

/// The value of the body of a cooked string literal written with simple
/// escapes only (`\n`, `\r`, `\t`, `\\`, `\0`, `\'`, `\"`), or `None` when
/// the body holds a bare `"`, a carriage return or any other backslash.
pub open spec fn cooked_value(b: Seq<char>) -> Option<Seq<char>>
    decreases b.len(),
{
    if b.len() == 0 {
        Some(seq![])
    } else if b[0] == '"' || b[0] == '\r' {
        None
    } else if b[0] == '\\' {
        if b.len() < 2 {
            None
        } else {
            match (simple_escape(b[1]), cooked_value(b.skip(2))) {
                (Some(c), Some(rest)) => Some(seq![c] + rest),
                _ => None,
            }
        }
    } else {
        match cooked_value(b.drop_first()) {
            Some(rest) => Some(seq![b[0]] + rest),
            None => None,
        }
    }
}

/// The number of `#` that `s` begins with.
pub open spec fn hash_run(s: Seq<char>) -> nat
    decreases s.len(),
{
    if s.len() > 0 && s[0] == '#' {
        1 + hash_run(s.drop_first())
    } else {
        0
    }
}

/// The body of `s` when it is a raw string literal `r#..#"body"#..#` (at most
/// 255 `#` on each side) whose body holds no `"` and no carriage return.
pub open spec fn raw_lit_body(s: Seq<char>) -> Option<Seq<char>> {
    let k = hash_run(s.drop_first()) as int;
    if s.len() >= 2 * k + 3 && k <= 255 && s[0] == 'r' && s[k + 1] == '"'
        && s[s.len() - k - 1] == '"' && (forall|i: int|
        s.len() - k <= i < s.len() ==> #[trigger] s[i] == '#') && (forall|i: int|
        k + 2 <= i < s.len() - k - 1 ==> #[trigger] s[i] != '"' && s[i] != '\r') {
        Some(s.subrange(k + 2, s.len() - k - 1))
    } else {
        None
    }
}

/// The value of `token` when, apart from plain spaces around it, it is a
/// string literal that both lexers read alike and whose value needs no more
/// than simple escapes: a cooked literal `"..."` with simple escapes only
/// (see [`cooked_value`]), or a raw literal whose body holds no `"` (see
/// [`raw_lit_body`]).
pub open spec fn plain_lit_body(token: Seq<char>) -> Option<Seq<char>> {
    let s = trim_plain(token);
    if s.len() >= 2 && s[0] == '"' && s.last() == '"' {
        cooked_value(s.subrange(1, s.len() - 1))
    } else {
        raw_lit_body(s)
    }
}

pub open spec fn is_ascii_ident_start(c: char) -> bool {
    ('a' <= c && c <= 'z') || ('A' <= c && c <= 'Z') || c == '_'
}

pub open spec fn is_ascii_ident_continue(c: char) -> bool {
    is_ascii_ident_start(c) || ('0' <= c && c <= '9')
}

/// The words that syn refuses as an identifier.
pub open spec fn is_syn_keyword(s: Seq<char>) -> bool {
    ||| s == "_"@
    ||| s == "abstract"@
    ||| s == "as"@
    ||| s == "async"@
    ||| s == "await"@
    ||| s == "become"@
    ||| s == "box"@
    ||| s == "break"@
    ||| s == "const"@
    ||| s == "continue"@
    ||| s == "crate"@
    ||| s == "do"@
    ||| s == "dyn"@
    ||| s == "else"@
    ||| s == "enum"@
    ||| s == "extern"@
    ||| s == "false"@
    ||| s == "final"@
    ||| s == "fn"@
    ||| s == "for"@
    ||| s == "if"@
    ||| s == "impl"@
    ||| s == "in"@
    ||| s == "let"@
    ||| s == "loop"@
    ||| s == "macro"@
    ||| s == "match"@
    ||| s == "mod"@
    ||| s == "move"@
    ||| s == "mut"@
    ||| s == "override"@
    ||| s == "priv"@
    ||| s == "pub"@
    ||| s == "ref"@
    ||| s == "return"@
    ||| s == "Self"@
    ||| s == "self"@
    ||| s == "static"@
    ||| s == "struct"@
    ||| s == "super"@
    ||| s == "trait"@
    ||| s == "true"@
    ||| s == "try"@
    ||| s == "type"@
    ||| s == "typeof"@
    ||| s == "unsafe"@
    ||| s == "unsized"@
    ||| s == "use"@
    ||| s == "virtual"@
    ||| s == "where"@
    ||| s == "while"@
    ||| s == "yield"@
}

/// `token` without the plain spaces around it, when that is an ASCII
/// identifier that syn accepts (no keyword): an identifier that both lexers
/// read alike and that needs no normalization.
pub open spec fn plain_ident(token: Seq<char>) -> Option<Seq<char>> {
    let s = trim_plain(token);
    if s.len() >= 1 && is_ascii_ident_start(s[0]) && (forall|i: int|
        1 <= i < s.len() ==> is_ascii_ident_continue(#[trigger] s[i])) && !is_syn_keyword(s) {
        Some(s)
    } else {
        None
    }
}

/// Whether `token` cannot be an identifier under either lexer: apart from
/// plain spaces it is empty, or it begins with a string literal's quote or
/// with a digit (a number literal).
pub open spec fn surely_no_ident(token: Seq<char>) -> bool {
    let t = trim_plain(token);
    t.len() == 0 || t[0] == '"' || ('0' <= t[0] && t[0] <= '9')
}

/// Calls `syn::parse_str::<syn::LitStr>` on `token` and, on success, takes
/// `LitStr::value` (the literal with its escapes resolved). What syn accepts
/// and yields in general depends on whether it runs inside a procedural
/// macro (rustc's lexer) or not (its own lexer); stated is only what both
/// lexers agree on: a plain literal `"t"` (see [`plain_lit_body`]) yields
/// `t`, and a text without `"` holds no string literal (cooked or raw).
#[verifier::external_body]
fn syn_lit_str(token: &str) -> (r: Option<String>)
    ensures
        r is Some ==> token@.contains('"'),
        match r {
            Some(v) => plain_lit_body(token@) matches Some(t) ==> v@ == t,
            None => plain_lit_body(token@) is None,
        },
{
    match syn::parse_str::<syn::LitStr>(token) {
        Ok(lit) => Some(lit.value()),
        Err(_) => None,
    }
}

/// Calls `syn::parse_str::<syn::Ident>` on `token` and, on success, takes
/// the identifier's text. What syn accepts in general depends on the lexer,
/// as for [`syn_lit_str`] (inside a procedural macro rustc also normalizes
/// identifiers); stated is only what both agree on: a plain ASCII
/// identifier that is no keyword (see [`plain_ident`]) yields itself, and a
/// text that is empty or begins with a quote or a digit (see
/// [`surely_no_ident`]) yields nothing.
#[verifier::external_body]
fn syn_ident(token: &str) -> (r: Option<String>)
    ensures
        surely_no_ident(token@) ==> r is None,
        match r {
            Some(v) => plain_ident(token@) matches Some(t) ==> v@ == t,
            None => plain_ident(token@) is None,
        },
{
    match syn::parse_str::<syn::Ident>(token) {
        Ok(ident) => Some(ident.to_string()),
        Err(_) => None,
    }
}

pub open spec fn spec_kw() -> Seq<char> {
    seq!['s', 'p', 'e', 'c']
}

pub open spec fn name_kw() -> Seq<char> {
    seq!['n', 'a', 'm', 'e']
}

/// The first position at or after `i` that holds no token space.
pub open spec fn skip_space(s: Seq<char>, i: int) -> int
    decreases s.len() - i,
{
    if 0 <= i < s.len() && is_token_space(s[i]) {
        skip_space(s, i + 1)
    } else {
        i
    }
}

/// Whether the keyword `kw` stands at `i`, ended by space, `=` or the end.
pub open spec fn keyword_at(s: Seq<char>, i: int, kw: Seq<char>) -> bool {
    &&& occurs_at(s, kw, i)
    &&& (i + kw.len() == s.len() || is_token_space(s[i + kw.len()]) || s[i + kw.len()] == '=')
}

/// The position of the last `c` in `s`, or -1.
pub open spec fn last_index(s: Seq<char>, c: char) -> int
    decreases s.len(),
{
    if s.len() == 0 {
        -1
    } else if s.last() == c {
        s.len() - 1
    } else {
        last_index(s.drop_last(), c)
    }
}

/// The positions of the first `=`, the last `,` and the second `=` of a
/// well laid out macro input, or the first fault of the layout.
pub open spec fn macro_layout(s: Seq<char>) -> Result<(int, int, int), MacroInputError> {
    let a = skip_space(s, 0);
    if !keyword_at(s, a, spec_kw()) {
        Err(MacroInputError::ExpectedSpecKeyword)
    } else {
        let e1 = skip_space(s, a + 4);
        if !(e1 < s.len() && s[e1] == '=') {
            Err(MacroInputError::ExpectedEquals)
        } else {
            let c = last_index(s, ',');
            if c <= e1 {
                Err(MacroInputError::ExpectedComma)
            } else {
                let d = skip_space(s, c + 1);
                if !keyword_at(s, d, name_kw()) {
                    Err(MacroInputError::ExpectedNameKeyword)
                } else {
                    let e2 = skip_space(s, d + 4);
                    if !(e2 < s.len() && s[e2] == '=') {
                        Err(MacroInputError::ExpectedEquals)
                    } else {
                        Ok((e1, c, e2))
                    }
                }
            }
        }
    }
}

/// The text of the path literal and of the name, as the layout cuts them.
pub open spec fn macro_parts(s: Seq<char>) -> Result<(Seq<char>, Seq<char>), MacroInputError> {
    match macro_layout(s) {
        Ok((e1, c, e2)) => Ok((s.subrange(e1 + 1, c), s.subrange(e2 + 1, s.len() as int))),
        Err(e) => Err(e),
    }
}

fn skip_space_from(s: &Vec<char>, i: usize) -> (r: usize)
    requires
        i <= s@.len(),
    ensures
        r == skip_space(s@, i as int),
        i <= r <= s@.len(),
{
    let mut j = i;
    while j < s.len() && token_space(s[j])
        invariant
            i <= j <= s@.len(),
            skip_space(s@, i as int) == skip_space(s@, j as int),
        decreases s.len() - j,
    {
        j += 1;
    }
    j
}

fn keyword_at_pos(s: &Vec<char>, i: usize, kw: &Vec<char>) -> (r: bool)
    ensures
        r == keyword_at(s@, i as int, kw@),
{
    if !matches_at(s, kw, i) {
        return false;
    }
    assert(i + kw@.len() <= s@.len());
    assert(s@.len() == s.len() && kw@.len() == kw.len());
    let k = i + kw.len();
    k == s.len() || token_space(s[k]) || s[k] == '='
}

fn last_comma(s: &Vec<char>) -> (r: Option<usize>)
    ensures
        match r {
            Some(k) => k == last_index(s@, ',') && k < s@.len(),
            None => last_index(s@, ',') == -1,
        },
{
    let mut found: Option<usize> = None;
    let mut i: usize = 0;
    assert(s@.take(0) =~= Seq::<char>::empty());
    while i < s.len()
        invariant
            i <= s@.len(),
            match found {
                Some(k) => k == last_index(s@.take(i as int), ',') && k < i,
                None => last_index(s@.take(i as int), ',') == -1,
            },
        decreases s.len() - i,
    {
        assert(s@.take(i + 1).drop_last() =~= s@.take(i as int));
        if s[i] == ',' {
            found = Some(i);
        }
        i += 1;
    }
    assert(s@.take(s@.len() as int) =~= s@);
    found
}

/// Cuts a macro input into its layout: the positions (in characters) of the
/// first `=`, of the last `,` and of the second `=`.
pub fn macro_input_layout(s: &Vec<char>) -> (r: Result<(usize, usize, usize), MacroInputError>)
    ensures
        match r {
            Ok((e1, c, e2)) => macro_layout(s@) == Ok::<(int, int, int), MacroInputError>(
                (e1 as int, c as int, e2 as int),
            ),
            Err(e) => macro_layout(s@) == Err::<(int, int, int), MacroInputError>(e),
        },
        r matches Ok((e1, c, e2)) ==> e1 < c < e2 < s@.len(),
{
    let spec_word = vec!['s', 'p', 'e', 'c'];
    let name_word = vec!['n', 'a', 'm', 'e'];
    assert(spec_word@ =~= spec_kw());
    assert(name_word@ =~= name_kw());
    let a = skip_space_from(s, 0);
    if !keyword_at_pos(s, a, &spec_word) {
        return Err(MacroInputError::ExpectedSpecKeyword);
    }
    assert(a + spec_word@.len() <= s@.len());
    assert(s@.len() == s.len() && spec_word@.len() == 4);
    let e1 = skip_space_from(s, a + 4);
    if !(e1 < s.len() && s[e1] == '=') {
        return Err(MacroInputError::ExpectedEquals);
    }
    let c = match last_comma(s) {
        Some(c) => c,
        None => {
            return Err(MacroInputError::ExpectedComma);
        },
    };
    if c <= e1 {
        return Err(MacroInputError::ExpectedComma);
    }
    let d = skip_space_from(s, c + 1);
    if !keyword_at_pos(s, d, &name_word) {
        return Err(MacroInputError::ExpectedNameKeyword);
    }
    assert(d + name_word@.len() <= s@.len());
    assert(name_word@.len() == 4);
    let e2 = skip_space_from(s, d + 4);
    if !(e2 < s.len() && s[e2] == '=') {
        return Err(MacroInputError::ExpectedEquals);
    }
    Ok((e1, c, e2))
}

impl MacroInput {
    /// Builds the input from what syn read of the path literal and of the
    /// name.
    pub fn from_parts(path: Option<String>, name: Option<String>) -> (r: Result<
        MacroInput,
        MacroInputError,
    >)
        ensures
            match (path, name) {
                (None, _) => r == Err::<MacroInput, MacroInputError>(
                    MacroInputError::InvalidSpecPath,
                ),
                (Some(_), None) => r == Err::<MacroInput, MacroInputError>(
                    MacroInputError::InvalidName,
                ),
                (Some(p), Some(n)) => r matches Ok(m) && m.spec_path@ == p@ && m.name@ == n@,
            },
    {
        match path {
            None => Err(MacroInputError::InvalidSpecPath),
            Some(spec_path) => match name {
                None => Err(MacroInputError::InvalidName),
                Some(name) => Ok(MacroInput { spec_path, name }),
            },
        }
    }

    /// Parses `spec = "<path>", name = <Ident>`: the layout errors come
    /// exactly where [`macro_layout`] finds them; after a good layout, the
    /// path text of [`macro_input_texts`] is handed to syn's literal parser
    /// and the name text to its identifier parser, and
    /// [`MacroInput::from_parts`] builds the result from what syn returns.
    /// A plain literal and a plain identifier always parse; a path text
    /// without `"` is always refused, and so is a name text that is empty or
    /// begins with a quote or a digit.
    pub fn parse(input: &str) -> (r: Result<MacroInput, MacroInputError>)
        ensures
            match macro_parts(input@) {
                Err(e) => r == Err::<MacroInput, MacroInputError>(e),
                Ok(_) => r is Ok || r == Err::<MacroInput, MacroInputError>(
                    MacroInputError::InvalidSpecPath,
                ) || r == Err::<MacroInput, MacroInputError>(MacroInputError::InvalidName),
            },
            match macro_parts(input@) {
                Ok((l, n)) => match (plain_lit_body(l), plain_ident(n)) {
                    (Some(p), Some(id)) => r matches Ok(m) && m.spec_path@ == p && m.name@ == id,
                    _ => true,
                },
                Err(_) => true,
            },
            macro_parts(input@) matches Ok((l, n)) ==> (!l.contains('"') ==> r
                == Err::<MacroInput, MacroInputError>(MacroInputError::InvalidSpecPath)),
            macro_parts(input@) matches Ok((l, n)) ==> (plain_lit_body(l) is Some
                && surely_no_ident(n) ==> r == Err::<MacroInput, MacroInputError>(
                MacroInputError::InvalidName,
            )),
    {
        let (lit, id) = match macro_input_texts(input) {
            Ok(texts) => texts,
            Err(e) => {
                return Err(e);
            },
        };
        let path = syn_lit_str(lit);
        let name = if path.is_some() {
            syn_ident(id)
        } else {
            None
        };
        Self::from_parts(path, name)
    }
}

/// The two texts of a macro input that go to syn: the path literal's text
/// (between the first `=` and the last `,`) and the name's text (after the
/// second `=`), or the first fault of the layout.
pub fn macro_input_texts<'a>(input: &'a str) -> (r: Result<(&'a str, &'a str), MacroInputError>)
    ensures
        match r {
            Ok((l, n)) => macro_parts(input@) == Ok::<(Seq<char>, Seq<char>), MacroInputError>(
                (l@, n@),
            ),
            Err(e) => macro_parts(input@) == Err::<(Seq<char>, Seq<char>), MacroInputError>(e),
        },
{
    let s = chars_of(input);
    let (e1, c, e2) = match macro_input_layout(&s) {
        Ok(layout) => layout,
        Err(e) => {
            return Err(e);
        },
    };
    let lit = input.substring_char(e1 + 1, c);
    let id = input.substring_char(e2 + 1, s.len());
    Ok((lit, id))
}

/// Whether `w` is made of token spaces only.
pub open spec fn all_space(w: Seq<char>) -> bool {
    forall|k: int| 0 <= k < w.len() ==> is_token_space(#[trigger] w[k])
}

/// The macro input laid out as `<w0>spec<w1>=<lit>,<w2>name<w3>=<name>`,
/// where the `w`s are runs of space. Spaces after the `=` signs and before
/// the comma belong to `lit` and `name`, the texts handed to syn.
pub open spec fn render_macro_input(
    w0: Seq<char>,
    w1: Seq<char>,
    w2: Seq<char>,
    w3: Seq<char>,
    lit: Seq<char>,
    name: Seq<char>,
) -> Seq<char> {
    w0 + spec_kw() + w1 + seq!['='] + lit + seq![','] + w2 + name_kw() + w3 + seq!['='] + name
}

proof fn lemma_skip_space_run(s: Seq<char>, i: int, j: int)
    requires
        0 <= i <= j <= s.len(),
        forall|k: int| i <= k < j ==> is_token_space(#[trigger] s[k]),
        j == s.len() || !is_token_space(s[j]),
    ensures
        skip_space(s, i) == j,
    decreases j - i,
{
    if i < j {
        lemma_skip_space_run(s, i + 1, j);
    }
}

proof fn lemma_last_index_before_suffix(x: Seq<char>, y: Seq<char>, c: char)
    requires
        !y.contains(c),
    ensures
        last_index(x + seq![c] + y, c) == x.len(),
    decreases y.len(),
{
    let s = x + seq![c] + y;
    if y.len() == 0 {
        assert(s.last() == c);
    } else {
        assert(s.last() == y.last());
        assert(s.drop_last() =~= x + seq![c] + y.drop_last());
        assert(!y.drop_last().contains(c)) by {
            if y.drop_last().contains(c) {
                let k = choose|k: int| 0 <= k < y.drop_last().len() && y.drop_last()[k] == c;
                assert(y[k] == c);
            }
        }
        lemma_last_index_before_suffix(x, y.drop_last(), c);
    }
}

proof fn lemma_space_run_of(s: Seq<char>, i: int, j: int)
    requires
        0 <= i <= j <= s.len(),
        all_space(s.subrange(i, j)),
    ensures
        forall|k: int| i <= k < j ==> is_token_space(#[trigger] s[k]),
{
    assert forall|k: int| i <= k < j implies is_token_space(#[trigger] s[k]) by {
        assert(s[k] == s.subrange(i, j)[k - i]);
    }
}

/// The layout of `s` from where its pieces stand.
proof fn lemma_layout_of_pieces(s: Seq<char>, a: int, e1: int, c: int, d: int, e2: int)
    requires
        0 <= a,
        a + 4 <= e1 < c,
        c + 1 <= d,
        d + 4 <= e2 < s.len(),
        all_space(s.subrange(0, a)),
        s.subrange(a, a + 4) == spec_kw(),
        all_space(s.subrange(a + 4, e1)),
        s[e1] == '=',
        last_index(s, ',') == c,
        all_space(s.subrange(c + 1, d)),
        s.subrange(d, d + 4) == name_kw(),
        all_space(s.subrange(d + 4, e2)),
        s[e2] == '=',
    ensures
        macro_layout(s) == Ok::<(int, int, int), MacroInputError>((e1, c, e2)),
{
    assert(s[a] == s.subrange(a, a + 4)[0]);
    assert(s[d] == s.subrange(d, d + 4)[0]);
    lemma_space_run_of(s, 0, a);
    lemma_skip_space_run(s, 0, a);
    lemma_space_run_of(s, a + 4, e1);
    lemma_skip_space_run(s, a + 4, e1);
    lemma_space_run_of(s, c + 1, d);
    lemma_skip_space_run(s, c + 1, d);
    lemma_space_run_of(s, d + 4, e2);
    lemma_skip_space_run(s, d + 4, e2);
    assert(occurs_at(s, spec_kw(), a));
    assert(occurs_at(s, name_kw(), d));
}

proof fn lemma_no_comma_in_tail(w2: Seq<char>, w3: Seq<char>, name: Seq<char>)
    requires
        all_space(w2),
        all_space(w3),
        !name.contains(','),
    ensures
        !(w2 + name_kw() + w3 + seq!['='] + name).contains(','),
{
    let tail = w2 + name_kw() + w3 + seq!['='] + name;
    if tail.contains(',') {
        let k = choose|k: int| 0 <= k < tail.len() && tail[k] == ',';
        let t0 = w2.len() as int;
        let t1 = t0 + 4 + w3.len() + 1;
        if k < t0 {
            assert(tail[k] == w2[k]);
            assert(is_token_space(w2[k]));
        } else if k < t0 + 4 {
            assert(tail[k] == name_kw()[k - t0]);
        } else if k < t1 - 1 {
            assert(tail[k] == w3[k - t0 - 4]);
            assert(is_token_space(w3[k - t0 - 4]));
        } else if k == t1 - 1 {
            assert(tail[k] == '=');
        } else {
            assert(tail[k] == name[k - t1]);
        }
    }
}

/// A macro input laid out as `<w0>spec<w1>=<lit>,<w2>name<w3>=<name>`, with
/// any runs of space `w0`..`w3`, is cut back into `lit` and `name`, whatever
/// `lit` holds (commas included), as long as the name holds no comma.
pub proof fn lemma_macro_parts_of_rendering(
    w0: Seq<char>,
    w1: Seq<char>,
    w2: Seq<char>,
    w3: Seq<char>,
    lit: Seq<char>,
    name: Seq<char>,
)
    requires
        all_space(w0),
        all_space(w1),
        all_space(w2),
        all_space(w3),
        !name.contains(','),
    ensures
        macro_parts(render_macro_input(w0, w1, w2, w3, lit, name)) == Ok::<
            (Seq<char>, Seq<char>),
            MacroInputError,
        >((lit, name)),
{
    let s = render_macro_input(w0, w1, w2, w3, lit, name);
    let left = w0 + spec_kw() + w1 + seq!['='] + lit;
    let tail = w2 + name_kw() + w3 + seq!['='] + name;
    let a: int = w0.len() as int;
    let e1: int = a + 4 + w1.len();
    let c: int = e1 + 1 + lit.len();
    let d: int = c + 1 + w2.len();
    let e2: int = d + 4 + w3.len();
    assert(s =~= left + seq![','] + tail);
    assert(s.len() == e2 + 1 + name.len());
    assert(s.subrange(0, a) =~= w0);
    assert(s.subrange(a, a + 4) =~= spec_kw());
    assert(s.subrange(a + 4, e1) =~= w1);
    assert(s[e1] == '=');
    assert(s.subrange(e1 + 1, c) =~= lit);
    assert(s.subrange(c + 1, d) =~= w2);
    assert(s.subrange(d, d + 4) =~= name_kw());
    assert(s.subrange(d + 4, e2) =~= w3);
    assert(s[e2] == '=');
    assert(s.subrange(e2 + 1, s.len() as int) =~= name);
    lemma_no_comma_in_tail(w2, w3, name);
    lemma_last_index_before_suffix(left, tail, ',');
    lemma_layout_of_pieces(s, a, e1, c, d, e2);
}

/// `p` written as the body of a cooked string literal: `\`, `"` and the
/// carriage return escaped, every other character as it is.
pub open spec fn escape_path(p: Seq<char>) -> Seq<char>
    decreases p.len(),
{
    if p.len() == 0 {
        seq![]
    } else {
        let c = p[0];
        let e = if c == '\\' {
            seq!['\\', '\\']
        } else if c == '"' {
            seq!['\\', '"']
        } else if c == '\r' {
            seq!['\\', 'r']
        } else {
            seq![c]
        };
        e + escape_path(p.drop_first())
    }
}

/// Every path, escaped into a cooked literal body, reads back as itself.
pub proof fn lemma_cooked_value_of_escape(p: Seq<char>)
    ensures
        cooked_value(escape_path(p)) == Some(p),
    decreases p.len(),
{
    if p.len() > 0 {
        lemma_cooked_value_of_escape(p.drop_first());
        let c = p[0];
        let e = escape_path(p);
        let r = escape_path(p.drop_first());
        if c == '\\' || c == '"' || c == '\r' {
            assert(e.skip(2) =~= r);
        } else {
            assert(e.drop_first() =~= r);
        }
        assert(seq![c] + p.drop_first() =~= p);
    }
}

proof fn lemma_trim_plain_unchanged(s: Seq<char>)
    requires
        s.len() > 0,
        !is_plain_space(s[0]),
        !is_plain_space(s.last()),
    ensures
        trim_plain(s) == s,
{
}

/// A path written as the cooked literal `"<escaped path>"` is read as the
/// path itself, whatever characters it holds.
pub proof fn lemma_cooked_literal_value(p: Seq<char>)
    ensures
        plain_lit_body(seq!['"'] + escape_path(p) + seq!['"']) == Some(p),
{
    let s = seq!['"'] + escape_path(p) + seq!['"'];
    lemma_trim_plain_unchanged(s);
    assert(s.subrange(1, s.len() - 1) =~= escape_path(p));
    lemma_cooked_value_of_escape(p);
}

/// A path without `"` and carriage return, written as the raw literal
/// `r"<path>"` (backslashes and all), is read as the path itself.
pub proof fn lemma_raw_literal_value(p: Seq<char>)
    requires
        !p.contains('"'),
        !p.contains('\r'),
    ensures
        plain_lit_body(seq!['r', '"'] + p + seq!['"']) == Some(p),
{
    let s = seq!['r', '"'] + p + seq!['"'];
    lemma_trim_plain_unchanged(s);
    assert(s.drop_first()[0] == '"');
    assert(hash_run(s.drop_first()) == 0);
    assert forall|i: int| 2 <= i < s.len() - 1 implies #[trigger] s[i] != '"' && s[i] != '\r' by {
        assert(s[i] == p[i - 2]);
    }
    assert(s.subrange(2, s.len() - 1) =~= p);
}

/// A macro input whose path is any path written as a raw literal `r"<p>"`
/// (no `"` or carriage return in `p`) or as the escaped cooked literal
/// `"<escaped p>"`, laid out with any runs of space, is cut into that literal
/// and the name, and the literal is read as `p`: by the contract of
/// [`MacroInput::parse`], with a plain name the input parses to `p` and the
/// name.
pub proof fn lemma_path_literal_inputs(
    w0: Seq<char>,
    w1: Seq<char>,
    w2: Seq<char>,
    w3: Seq<char>,
    p: Seq<char>,
    name: Seq<char>,
)
    requires
        all_space(w0),
        all_space(w1),
        all_space(w2),
        all_space(w3),
        !name.contains(','),
    ensures
        !p.contains('"') && !p.contains('\r') ==> {
            let lit = seq!['r', '"'] + p + seq!['"'];
            &&& macro_parts(render_macro_input(w0, w1, w2, w3, lit, name)) == Ok::<
                (Seq<char>, Seq<char>),
                MacroInputError,
            >((lit, name))
            &&& plain_lit_body(lit) == Some(p)
        },
        ({
            let lit = seq!['"'] + escape_path(p) + seq!['"'];
            &&& macro_parts(render_macro_input(w0, w1, w2, w3, lit, name)) == Ok::<
                (Seq<char>, Seq<char>),
                MacroInputError,
            >((lit, name))
            &&& plain_lit_body(lit) == Some(p)
        }),
{
    lemma_macro_parts_of_rendering(w0, w1, w2, w3, seq!['r', '"'] + p + seq!['"'], name);
    lemma_macro_parts_of_rendering(w0, w1, w2, w3, seq!['"'] + escape_path(p) + seq!['"'], name);
    lemma_cooked_literal_value(p);
    if !p.contains('"') && !p.contains('\r') {
        lemma_raw_literal_value(p);
    }
}

} // verus!
