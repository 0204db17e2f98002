use vstd::prelude::*;
use vstd::string::StrSliceExecFns;
use crate::json::{
    Json, JsonV, json_view, stripped, without_key, key_free, lacks_key, strip_key, drop_root_key,
    lemma_stripped_key_free, lemma_without_key,
};

verus! {

broadcast use vstd::string::group_string_axioms;

/// A character allowed in a schema name: `[A-Za-z0-9_-]`.
pub open spec fn name_char(c: char) -> bool {
    ('a' <= c && c <= 'z') || ('A' <= c && c <= 'Z') || ('0' <= c && c <= '9') || c == '_' || c
        == '-'
}

/// A non-empty name made of allowed characters only.
pub open spec fn valid_name(s: Seq<char>) -> bool {
    s.len() > 0 && forall|i: int| 0 <= i < s.len() ==> name_char(#[trigger] s[i])
}

/// A character kept as it is in a schema name: `[A-Za-z0-9-]`.
pub open spec fn plain_char(c: char) -> bool {
    ('a' <= c && c <= 'z') || ('A' <= c && c <= 'Z') || ('0' <= c && c <= '9') || c == '-'
}

/// The lower-case hexadecimal digit of `d < 16`.
pub open spec fn hex_char(d: u32) -> char {
    if d == 0 { '0' } else if d == 1 { '1' } else if d == 2 { '2' } else if d == 3 { '3' }
    else if d == 4 { '4' } else if d == 5 { '5' } else if d == 6 { '6' } else if d == 7 { '7' }
    else if d == 8 { '8' } else if d == 9 { '9' } else if d == 10 { 'a' } else if d == 11 { 'b' }
    else if d == 12 { 'c' } else if d == 13 { 'd' } else if d == 14 { 'e' } else { 'f' }
}

/// The code point of `c` as six hexadecimal digits, most significant first.
pub open spec fn hex6(c: char) -> Seq<char> {
    let n = c as u32;
    seq![
        hex_char((n >> 20u32) & 15u32),
        hex_char((n >> 16u32) & 15u32),
        hex_char((n >> 12u32) & 15u32),
        hex_char((n >> 8u32) & 15u32),
        hex_char((n >> 4u32) & 15u32),
        hex_char(n & 15u32),
    ]
}

/// How one character that does not start a `::` is written in a schema name.
/// `_` is the escape character: `_` itself is `__`, `<` is `_L`, `>` is `_R`,
/// and any other character outside `[A-Za-z0-9-]` is `_x` and six hex digits.
pub open spec fn char_code(c: char) -> Seq<char> {
    if plain_char(c) {
        seq![c]
    } else if c == '_' {
        seq!['_', '_']
    } else if c == '<' {
        seq!['_', 'L']
    } else if c == '>' {
        seq!['_', 'R']
    } else {
        seq!['_', 'x'] + hex6(c)
    }
}

/// The input starts with the path separator `::`.
pub open spec fn starts_with_path(s: Seq<char>) -> bool {
    s.len() >= 2 && s[0] == ':' && s[1] == ':'
}

/// How many characters of a non-empty input the first code stands for.
pub open spec fn token_len(s: Seq<char>) -> int {
    if starts_with_path(s) { 2 } else { 1 }
}

/// The code of the first token of a non-empty input: `::` is `_C`.
pub open spec fn first_code(s: Seq<char>) -> Seq<char> {
    if starts_with_path(s) { seq!['_', 'C'] } else { char_code(s[0]) }
}

/// The schema name of a type's fully qualified name: the codes of its tokens,
/// read from the left with `::` taken as one token.
pub open spec fn schema_name_of(s: Seq<char>) -> Seq<char>
    decreases s.len(),
{
    if s.len() == 0 {
        Seq::empty()
    } else {
        first_code(s) + schema_name_of(s.skip(token_len(s)))
    }
}

pub open spec fn format_key() -> Seq<char> {
    seq!['f', 'o', 'r', 'm', 'a', 't']
}

pub open spec fn title_key() -> Seq<char> {
    seq!['t', 'i', 't', 'l', 'e']
}

/// What happens to the `title` entry of the top-level schema object.
#[derive(Debug, Clone, Copy, PartialEq, Eq)]
pub enum TitlePolicy {
    Keep,
    StripRoot,
}

/// The provider-compatible form of a generated schema document: `format`
/// removed at every depth, and the top-level `title` removed where the policy asks.
pub open spec fn sanitized(j: JsonV, title: TitlePolicy) -> JsonV {
    let s = stripped(j, format_key());
    match title {
        TitlePolicy::Keep => s,
        TitlePolicy::StripRoot => match s {
            JsonV::Object(es) => JsonV::Object(without_key(es, title_key())),
            other => other,
        },
    }
}

/// A named schema sent with a request for structured output.
#[derive(Debug)]
pub struct Schema {
    pub name: String,
    pub schema: Json,
    pub strict: bool,
}

impl Schema {
    /// The name is valid, no object of the document has a `format` entry, and
    /// strict mode is on.
    pub open spec fn wf(&self) -> bool {
        valid_name(self.name@) && key_free(json_view(self.schema), format_key()) && self.strict
    }
}

/// Relies on `String::push`: the character is appended at the end.
#[verifier::external_body]
fn push_char(s: &mut String, c: char)
    ensures
        final(s)@ == old(s)@.push(c),
{
    s.push(c)
}

fn is_plain_char(c: char) -> (r: bool)
    ensures
        r == plain_char(c),
{
    ('a' <= c && c <= 'z') || ('A' <= c && c <= 'Z') || ('0' <= c && c <= '9') || c == '-'
}

fn hex_digit(d: u32) -> (r: char)
    ensures
        r == hex_char(d),
{
    if d == 0 { '0' } else if d == 1 { '1' } else if d == 2 { '2' } else if d == 3 { '3' }
    else if d == 4 { '4' } else if d == 5 { '5' } else if d == 6 { '6' } else if d == 7 { '7' }
    else if d == 8 { '8' } else if d == 9 { '9' } else if d == 10 { 'a' } else if d == 11 { 'b' }
    else if d == 12 { 'c' } else if d == 13 { 'd' } else if d == 14 { 'e' } else { 'f' }
}

/// Appends the code of one character to `out`.
fn push_code(out: &mut String, c: char)
    ensures
        final(out)@ == old(out)@ + char_code(c),
{
    let ghost start = out@;
    if is_plain_char(c) {
        push_char(out, c);
    } else if c == '_' {
        push_char(out, '_');
        push_char(out, '_');
    } else if c == '<' {
        push_char(out, '_');
        push_char(out, 'L');
    } else if c == '>' {
        push_char(out, '_');
        push_char(out, 'R');
    } else {
        let n = c as u32;
        push_char(out, '_');
        push_char(out, 'x');
        push_char(out, hex_digit((n >> 20u32) & 15u32));
        push_char(out, hex_digit((n >> 16u32) & 15u32));
        push_char(out, hex_digit((n >> 12u32) & 15u32));
        push_char(out, hex_digit((n >> 8u32) & 15u32));
        push_char(out, hex_digit((n >> 4u32) & 15u32));
        push_char(out, hex_digit(n & 15u32));
    }
    assert(out@ =~= start + char_code(c));
}

/// Derives the schema name from a type's fully qualified name.
pub fn schema_name(qualified: &str) -> (r: String)
    ensures
        r@ == schema_name_of(qualified@),
{
    let n: usize = qualified.unicode_len();
    let mut out = String::new();
    let mut i: usize = 0;
    proof {
        assert(qualified@.skip(0) =~= qualified@);
        assert(out@ + schema_name_of(qualified@) =~= schema_name_of(qualified@));
    }
    while i < n
        invariant
            n == qualified@.len(),
            i <= n,
            out@ + schema_name_of(qualified@.skip(i as int)) == schema_name_of(qualified@),
        decreases n - i,
    {
        let ghost rest = qualified@.skip(i as int);
        let ghost before = out@;
        let c = qualified.get_char(i);
        if c == ':' && i + 1 < n && qualified.get_char(i + 1) == ':' {
            push_char(&mut out, '_');
            push_char(&mut out, 'C');
            proof {
                assert(rest.skip(2) =~= qualified@.skip(i + 2));
                assert(before + (seq!['_', 'C'] + schema_name_of(rest.skip(2))) =~= out@
                    + schema_name_of(rest.skip(2)));
            }
            i += 2;
        } else {
            push_code(&mut out, c);
            proof {
                assert(rest.skip(1) =~= qualified@.skip(i + 1));
                assert(before + (char_code(c) + schema_name_of(rest.skip(1))) =~= out@
                    + schema_name_of(rest.skip(1)));
            }
            i += 1;
        }
    }
    proof {
        assert(qualified@.skip(n as int) =~= Seq::<char>::empty());
        assert(out@ + Seq::<char>::empty() =~= out@);
    }
    out
}

fn format_key_string() -> (r: String)
    ensures
        r@ == format_key(),
{
    let r = "format".to_string();
    proof {
        reveal_strlit("format");
        assert(r@ =~= format_key());
    }
    r
}

fn title_key_string() -> (r: String)
    ensures
        r@ == title_key(),
{
    let r = "title".to_string();
    proof {
        reveal_strlit("title");
        assert(r@ =~= title_key());
    }
    r
}

/// Turns a generated schema document for the type named `qualified` into a
/// provider-compatible schema in strict mode.
pub fn get_schema(qualified: &str, raw: &Json, title: TitlePolicy) -> (r: Schema)
    ensures
        r.name@ == schema_name_of(qualified@),
        json_view(r.schema) == sanitized(json_view(*raw), title),
        r.strict,
        qualified@.len() > 0 ==> r.wf(),
{
    let stripped_doc = strip_key(raw, &format_key_string());
    let doc = match title {
        TitlePolicy::Keep => stripped_doc,
        TitlePolicy::StripRoot => drop_root_key(stripped_doc, &title_key_string()),
    };
    let name = schema_name(qualified);
    proof {
        lemma_schema_name_charset(qualified@);
        lemma_sanitized_format_free(json_view(*raw), title);
    }
    Schema { name, schema: doc, strict: true }
}

proof fn lemma_hex_char(d: u32)
    ensures
        d < 16 ==> name_char(hex_char(d)) && hex_char(d) != '_',
        forall|e: u32| d < 16 && e < 16 && #[trigger] hex_char(e) == hex_char(d) ==> e == d,
{
}

proof fn lemma_nibbles(x: u32, y: u32)
    requires
        x < 0x1000000,
        y < 0x1000000,
        (x >> 20u32) & 15u32 == (y >> 20u32) & 15u32,
        (x >> 16u32) & 15u32 == (y >> 16u32) & 15u32,
        (x >> 12u32) & 15u32 == (y >> 12u32) & 15u32,
        (x >> 8u32) & 15u32 == (y >> 8u32) & 15u32,
        (x >> 4u32) & 15u32 == (y >> 4u32) & 15u32,
        x & 15u32 == y & 15u32,
    ensures
        x == y,
{
    assert(x == y) by (bit_vector)
        requires
            x < 0x1000000,
            y < 0x1000000,
            (x >> 20u32) & 15u32 == (y >> 20u32) & 15u32,
            (x >> 16u32) & 15u32 == (y >> 16u32) & 15u32,
            (x >> 12u32) & 15u32 == (y >> 12u32) & 15u32,
            (x >> 8u32) & 15u32 == (y >> 8u32) & 15u32,
            (x >> 4u32) & 15u32 == (y >> 4u32) & 15u32,
            x & 15u32 == y & 15u32,
    ;
}

proof fn lemma_nibble_range(x: u32)
    ensures
        (x >> 20u32) & 15u32 < 16,
        (x >> 16u32) & 15u32 < 16,
        (x >> 12u32) & 15u32 < 16,
        (x >> 8u32) & 15u32 < 16,
        (x >> 4u32) & 15u32 < 16,
        x & 15u32 < 16,
{
    assert((x >> 20u32) & 15u32 < 16) by (bit_vector);
    assert((x >> 16u32) & 15u32 < 16) by (bit_vector);
    assert((x >> 12u32) & 15u32 < 16) by (bit_vector);
    assert((x >> 8u32) & 15u32 < 16) by (bit_vector);
    assert((x >> 4u32) & 15u32 < 16) by (bit_vector);
    assert(x & 15u32 < 16) by (bit_vector);
}

/// The code of a character is non-empty, uses only `[A-Za-z0-9_-]`, starts
/// with `_` exactly when it is escaped, and an escaped code is eight
/// characters long when its second character is `x`, two otherwise.
proof fn lemma_char_code_shape(c: char)
    ensures
        char_code(c).len() > 0,
        forall|i: int| 0 <= i < char_code(c).len() ==> name_char(#[trigger] char_code(c)[i]),
        char_code(c)[0] != '_' ==> char_code(c).len() == 1,
        char_code(c)[0] == '_' ==> char_code(c).len() >= 2 && (char_code(c)[1] == 'x'
            <==> char_code(c).len() == 8),
        char_code(c) != seq!['_', 'C'],
{
    let n = c as u32;
    lemma_nibble_range(n);
    lemma_hex_char((n >> 20u32) & 15u32);
    lemma_hex_char((n >> 16u32) & 15u32);
    lemma_hex_char((n >> 12u32) & 15u32);
    lemma_hex_char((n >> 8u32) & 15u32);
    lemma_hex_char((n >> 4u32) & 15u32);
    lemma_hex_char(n & 15u32);
    if char_code(c) == seq!['_', 'C'] {
        assert(char_code(c)[1] == 'C');
    }
}

proof fn lemma_char_code_injective(c: char, d: char)
    requires
        char_code(c) == char_code(d),
    ensures
        c == d,
{
    lemma_char_code_shape(c);
    lemma_char_code_shape(d);
    if !plain_char(c) && c != '_' && c != '<' && c != '>' {
        assert(char_code(d)[1] == 'x');
        assert(!plain_char(d) && d != '_' && d != '<' && d != '>');
        assert(hex6(c) =~= char_code(c).skip(2));
        assert(hex6(d) =~= char_code(d).skip(2));
        assert(hex6(c) == hex6(d));
        let x = c as u32;
        let y = d as u32;
        lemma_nibble_range(x);
        lemma_nibble_range(y);
        lemma_hex_char((x >> 20u32) & 15u32);
        lemma_hex_char((x >> 16u32) & 15u32);
        lemma_hex_char((x >> 12u32) & 15u32);
        lemma_hex_char((x >> 8u32) & 15u32);
        lemma_hex_char((x >> 4u32) & 15u32);
        lemma_hex_char(x & 15u32);
        assert(hex_char((x >> 20u32) & 15u32) == hex_char((y >> 20u32) & 15u32));
        assert(hex_char((x >> 16u32) & 15u32) == hex_char((y >> 16u32) & 15u32));
        assert(hex_char((x >> 12u32) & 15u32) == hex_char((y >> 12u32) & 15u32));
        assert(hex_char((x >> 8u32) & 15u32) == hex_char((y >> 8u32) & 15u32));
        assert(hex_char((x >> 4u32) & 15u32) == hex_char((y >> 4u32) & 15u32));
        assert(hex_char(x & 15u32) == hex_char(y & 15u32));
        lemma_nibbles(x, y);
    } else {
        assert(char_code(c)[0] == char_code(d)[0]);
        if char_code(c).len() == 2 {
            assert(char_code(c)[1] == char_code(d)[1]);
        }
    }
}

/// The first code of a non-empty input has the shape of a character's code,
/// and the code tells the first token back.
proof fn lemma_first_code(a: Seq<char>, b: Seq<char>)
    requires
        a.len() > 0,
        b.len() > 0,
    ensures
        first_code(a).len() > 0,
        forall|i: int| 0 <= i < first_code(a).len() ==> name_char(#[trigger] first_code(a)[i]),
        first_code(a)[0] != '_' ==> first_code(a).len() == 1,
        first_code(a)[0] == '_' ==> first_code(a).len() >= 2 && (first_code(a)[1] == 'x'
            <==> first_code(a).len() == 8),
        first_code(a) == first_code(b) ==> token_len(a) == token_len(b) && a.take(token_len(a))
            == b.take(token_len(b)),
{
    lemma_char_code_shape(a[0]);
    lemma_char_code_shape(b[0]);
    if first_code(a) == first_code(b) {
        if starts_with_path(a) && starts_with_path(b) {
            assert(a.take(2) =~= b.take(2));
        } else if !starts_with_path(a) && !starts_with_path(b) {
            lemma_char_code_injective(a[0], b[0]);
            assert(a.take(1) =~= b.take(1));
        }
    }
}

/// The schema name of every type is made of `[A-Za-z0-9_-]` only, and is as
/// long as the type's name is non-empty.
pub proof fn lemma_schema_name_charset(s: Seq<char>)
    ensures
        forall|i: int| 0 <= i < schema_name_of(s).len() ==> name_char(#[trigger] schema_name_of(s)[i]),
        s.len() > 0 ==> valid_name(schema_name_of(s)),
    decreases s.len(),
{
    if s.len() > 0 {
        let head = first_code(s);
        let tail = schema_name_of(s.skip(token_len(s)));
        lemma_first_code(s, s);
        lemma_schema_name_charset(s.skip(token_len(s)));
        assert forall|i: int| 0 <= i < schema_name_of(s).len() implies name_char(
            #[trigger] schema_name_of(s)[i],
        ) by {
            if i >= head.len() {
                assert(schema_name_of(s)[i] == tail[i - head.len()]);
            } else {
                assert(schema_name_of(s)[i] == head[i]);
            }
        }
    }
}

/// Types with different fully qualified names never share a schema name.
pub proof fn lemma_schema_name_injective(a: Seq<char>, b: Seq<char>)
    requires
        schema_name_of(a) == schema_name_of(b),
    ensures
        a == b,
    decreases a.len(),
{
    let na = schema_name_of(a);
    if a.len() == 0 || b.len() == 0 {
        if a.len() > 0 {
            lemma_first_code(a, a);
        }
        if b.len() > 0 {
            lemma_first_code(b, b);
        }
        assert(a =~= b);
    } else {
        let ca = first_code(a);
        let cb = first_code(b);
        let ka = token_len(a);
        let kb = token_len(b);
        lemma_first_code(a, b);
        lemma_first_code(b, a);
        assert(na[0] == ca[0] && na[0] == cb[0]);
        if ca[0] == '_' {
            assert(na[1] == ca[1] && na[1] == cb[1]);
        }
        assert(ca.len() == cb.len());
        assert(ca =~= na.take(ca.len() as int));
        assert(cb =~= na.take(ca.len() as int));
        assert(schema_name_of(a.skip(ka)) =~= na.skip(ca.len() as int));
        assert(schema_name_of(b.skip(kb)) =~= na.skip(ca.len() as int));
        lemma_schema_name_injective(a.skip(ka), b.skip(kb));
        assert(a =~= a.take(ka) + a.skip(ka));
        assert(b =~= b.take(kb) + b.skip(kb));
    }
}

/// No object of a sanitized schema document has a `format` entry, at any
/// depth, whatever the title policy; under `StripRoot` the top-level object
/// has no `title` entry either.
pub proof fn lemma_sanitized_format_free(raw: JsonV, title: TitlePolicy)
    ensures
        key_free(sanitized(raw, title), format_key()),
        title == TitlePolicy::StripRoot && sanitized(raw, title) is Object ==> lacks_key(
            sanitized(raw, title)->Object_0,
            title_key(),
        ),
{
    lemma_stripped_key_free(raw, format_key());
    match stripped(raw, format_key()) {
        JsonV::Object(es) => lemma_without_key(es, title_key(), format_key()),
        _ => {},
    }
}

} // verus!
