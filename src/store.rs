use vstd::prelude::*;
use crate::app::App;
use crate::app::AppView;

verus! {

#[verifier::external_type_specification]
#[verifier::external_body]
pub struct ExJsonError(serde_json::Error);

/// A lowercase hexadecimal digit, for `n` in `0..16`.
pub open spec fn hex_digit(n: int) -> char {
    seq!['0', '1', '2', '3', '4', '5', '6', '7', '8', '9', 'a', 'b', 'c', 'd', 'e', 'f'][n]
}

/// How one character is written inside a JSON string: quote and backslash get
/// a backslash, the five common control characters their short escape, the
/// other control characters `\u00XX`, and every other character itself.
pub open spec fn escape_char(c: char) -> Seq<char> {
    if c == '"' {
        seq!['\\', '"']
    } else if c == '\\' {
        seq!['\\', '\\']
    } else if c == '\u{8}' {
        seq!['\\', 'b']
    } else if c == '\t' {
        seq!['\\', 't']
    } else if c == '\n' {
        seq!['\\', 'n']
    } else if c == '\u{c}' {
        seq!['\\', 'f']
    } else if c == '\r' {
        seq!['\\', 'r']
    } else if (c as int) < 0x20 {
        seq!['\\', 'u', '0', '0', hex_digit((c as int) / 16), hex_digit((c as int) % 16)]
    } else {
        seq![c]
    }
}

/// The escaped characters of a string, in order.
pub open spec fn escaped(s: Seq<char>) -> Seq<char>
    decreases s.len(),
{
    if s.len() == 0 {
        Seq::empty()
    } else {
        escape_char(s[0]) + escaped(s.drop_first())
    }
}

/// A JSON string literal.
pub open spec fn quoted(s: Seq<char>) -> Seq<char> {
    seq!['"'] + escaped(s) + seq!['"']
}

/// The string literals of a list, separated by commas.
pub open spec fn joined(v: Seq<Seq<char>>) -> Seq<char>
    decreases v.len(),
{
    if v.len() == 0 {
        Seq::empty()
    } else if v.len() == 1 {
        quoted(v[0])
    } else {
        quoted(v[0]) + seq![','] + joined(v.drop_first())
    }
}

/// The compact JSON array of strings that a list of entries is saved as.
pub open spec fn json_text(v: Seq<Seq<char>>) -> Seq<char> {
    seq!['['] + joined(v) + seq![']']
}

proof fn lemma_split(a: Seq<char>, b: Seq<char>, c: Seq<char>, d: Seq<char>)
    requires
        a + b == c + d,
        a.len() == c.len(),
    ensures
        a == c,
        b == d,
{
    assert(a =~= (a + b).subrange(0, a.len() as int));
    assert(c =~= (c + d).subrange(0, c.len() as int));
    assert(b =~= (a + b).subrange(a.len() as int, (a + b).len() as int));
    assert(d =~= (c + d).subrange(c.len() as int, (c + d).len() as int));
}

proof fn lemma_hex_digit_injective(a: int, b: int)
    requires
        0 <= a < 16,
        0 <= b < 16,
        hex_digit(a) == hex_digit(b),
    ensures
        a == b,
{
}

proof fn lemma_escape_char_prefix(c1: char, c2: char, r1: Seq<char>, r2: Seq<char>)
    requires
        escape_char(c1) + r1 == escape_char(c2) + r2,
    ensures
        c1 == c2,
        r1 == r2,
{
    let e1 = escape_char(c1);
    let e2 = escape_char(c2);
    let s = e1 + r1;
    assert(s[0] == e1[0] && s[0] == e2[0]);
    if e1.len() >= 2 && e2.len() >= 2 {
        assert(s[1] == e1[1] && s[1] == e2[1]);
    }
    if e1.len() == 6 && e2.len() == 6 {
        assert(s[4] == e1[4] && s[4] == e2[4]);
        assert(s[5] == e1[5] && s[5] == e2[5]);
        lemma_hex_digit_injective((c1 as int) / 16, (c2 as int) / 16);
        lemma_hex_digit_injective((c1 as int) % 16, (c2 as int) % 16);
        assert(c1 as int == c2 as int);
    }
    lemma_split(e1, r1, e2, r2);
}

proof fn lemma_escaped_prefix(x1: Seq<char>, x2: Seq<char>, r1: Seq<char>, r2: Seq<char>)
    requires
        escaped(x1) + seq!['"'] + r1 == escaped(x2) + seq!['"'] + r2,
    ensures
        x1 == x2,
        r1 == r2,
    decreases x1.len(),
{
    let q = seq!['"'];
    if x1.len() == 0 || x2.len() == 0 {
        if x1.len() != x2.len() {
            let x = if x1.len() == 0 { x2 } else { x1 };
            let r = if x1.len() == 0 { r2 } else { r1 };
            assert((escaped(x) + q + r)[0] == escape_char(x[0])[0]);
            assert((escaped(Seq::<char>::empty()) + q) =~= q);
            assert(false);
        } else {
            assert(escaped(x1) =~= Seq::<char>::empty());
            assert(escaped(x2) =~= Seq::<char>::empty());
            assert(escaped(x1) + q + r1 =~= q + r1);
            assert(escaped(x2) + q + r2 =~= q + r2);
            lemma_split(q, r1, q, r2);
        }
    } else {
        let t1 = escaped(x1.drop_first()) + q + r1;
        let t2 = escaped(x2.drop_first()) + q + r2;
        assert(escaped(x1) + q + r1 =~= escape_char(x1[0]) + t1);
        assert(escaped(x2) + q + r2 =~= escape_char(x2[0]) + t2);
        lemma_escape_char_prefix(x1[0], x2[0], t1, t2);
        lemma_escaped_prefix(x1.drop_first(), x2.drop_first(), r1, r2);
        assert(x1 =~= seq![x1[0]] + x1.drop_first());
        assert(x2 =~= seq![x2[0]] + x2.drop_first());
    }
}

proof fn lemma_joined_injective(v1: Seq<Seq<char>>, v2: Seq<Seq<char>>)
    requires
        joined(v1) + seq![']'] == joined(v2) + seq![']'],
    ensures
        v1 == v2,
    decreases v1.len(),
{
    let q = seq!['"'];
    let close = seq![']'];
    if v1.len() == 0 || v2.len() == 0 {
        if v1.len() != v2.len() {
            let v = if v1.len() == 0 { v2 } else { v1 };
            assert((joined(v) + close)[0] == '"');
            assert((joined(Seq::<Seq<char>>::empty()) + close) =~= close);
            assert(false);
        } else {
            assert(v1 =~= v2);
        }
    } else {
        let tail1 = if v1.len() > 1 { seq![','] + joined(v1.drop_first()) + close } else { close };
        let tail2 = if v2.len() > 1 { seq![','] + joined(v2.drop_first()) + close } else { close };
        assert(joined(v1) + close =~= q + (escaped(v1[0]) + q + tail1));
        assert(joined(v2) + close =~= q + (escaped(v2[0]) + q + tail2));
        lemma_split(q, escaped(v1[0]) + q + tail1, q, escaped(v2[0]) + q + tail2);
        lemma_escaped_prefix(v1[0], v2[0], tail1, tail2);
        assert(tail1[0] == tail2[0]);
        if v1.len() > 1 {
            let c = seq![','];
            assert(tail1 =~= c + (joined(v1.drop_first()) + close));
            assert(tail2 =~= c + (joined(v2.drop_first()) + close));
            lemma_split(c, joined(v1.drop_first()) + close, c, joined(v2.drop_first()) + close);
            lemma_joined_injective(v1.drop_first(), v2.drop_first());
        }
        assert(v1 =~= seq![v1[0]] + v1.drop_first());
        assert(v2 =~= seq![v2[0]] + v2.drop_first());
    }
}

/// Saving loses nothing: two lists are saved as the same text only when they
/// are equal, so reading saved text back gives exactly the list that was saved.
pub proof fn lemma_round_trip(v: Seq<Seq<char>>, w: Seq<Seq<char>>)
    requires
        json_text(w) == json_text(v),
    ensures
        w == v,
{
    let o = seq!['['];
    assert(json_text(v) =~= o + (joined(v) + seq![']']));
    assert(json_text(w) =~= o + (joined(w) + seq![']']));
    lemma_split(o, joined(w) + seq![']'], o, joined(v) + seq![']']);
    lemma_joined_injective(w, v);
}

/// The list of strings that a text parses to as a JSON array of strings, if it
/// is one.
pub uninterp spec fn json_strings_of(s: Seq<char>) -> Option<Seq<Seq<char>>>;

/// Relies on serde_json::to_string: a list of strings is written as a compact
/// JSON array, and serialising strings cannot fail.
#[verifier::external_body]
fn json_of_strings(v: &Vec<String>) -> (r: Result<String, serde_json::Error>)
    ensures
        r is Ok,
        r matches Ok(t) ==> t@ == json_text(v.deep_view()),
{
    serde_json::to_string(v)
}

/// Relies on serde_json::from_str: it succeeds exactly on the JSON arrays of
/// strings, and reads back what serde_json::to_string wrote.
#[verifier::external_body]
fn strings_of_json(s: &str) -> (r: Result<Vec<String>, serde_json::Error>)
    ensures
        r matches Ok(v) ==> json_strings_of(s@) == Some(v.deep_view()),
        r is Err ==> json_strings_of(s@) is None,
        r is Ok || forall|v: Seq<Seq<char>>| s@ != #[trigger] json_text(v),
        r matches Ok(w) ==> forall|v: Seq<Seq<char>>| s@ == #[trigger] json_text(v) ==> w.deep_view() == v,
{
    serde_json::from_str(s)
}

/// Why a saved list could not be read.
#[derive(PartialEq, Eq, Structural, Debug, Clone, Copy)]
pub enum LoadError {
    /// The text is not a JSON array of strings.
    Malformed,
}

/// The text that the entries are saved as.
pub fn encode_todos(todos: &Vec<String>) -> (r: String)
    ensures
        r@ == json_text(todos.deep_view()),
{
    match json_of_strings(todos) {
        Ok(t) => t,
        Err(_) => {
            proof {
                assert(false);
            }
            String::new()
        },
    }
}

/// The entries read back from saved text.
pub fn decode_todos(text: &str) -> (r: Result<Vec<String>, LoadError>)
    ensures
        json_strings_of(text@) is Some <==> r is Ok,
        r matches Ok(v) ==> Some(v.deep_view()) == json_strings_of(text@),
        forall|v: Seq<Seq<char>>| text@ == #[trigger] json_text(v) ==> r is Ok && r->Ok_0.deep_view() == v,
{
    match strings_of_json(text) {
        Ok(v) => Ok(v),
        Err(_) => Err(LoadError::Malformed),
    }
}

/// A run's first state: nothing typed, the first entry selected, no overlay.
pub open spec fn fresh_state(todos: Seq<Seq<char>>) -> AppView {
    AppView { input: Seq::empty(), todos, index: 0, show_popup: false }
}

/// The state a run starts in, and the text to write to the save file, if any.
pub struct Startup {
    pub app: App,
    pub write: Option<String>,
}

/// The state at start-up, from the save file's contents (`None` where it could
/// not be read): a missing file gives no entries and is created holding an empty
/// list; a file that is not a JSON array of strings is an error.
pub fn startup(saved: Option<String>) -> (r: Result<Startup, LoadError>)
    ensures
        saved is None ==> {
            &&& r is Ok
            &&& r->Ok_0.app@ == fresh_state(Seq::empty())
            &&& r->Ok_0.write is Some
            &&& r->Ok_0.write->Some_0@ == json_text(Seq::empty())
        },
        saved is Some && json_strings_of(saved->Some_0@) is Some ==> {
            &&& r is Ok
            &&& r->Ok_0.app@ == fresh_state(json_strings_of(saved->Some_0@)->Some_0)
            &&& r->Ok_0.write is None
        },
        saved is Some && json_strings_of(saved->Some_0@) is None ==> r == Err::<Startup, LoadError>(
            LoadError::Malformed,
        ),
{
    let mut app = App::default();
    match saved {
        None => {
            let w = encode_todos(&app.todos);
            Ok(Startup { app, write: Some(w) })
        },
        Some(t) => match decode_todos(t.as_str()) {
            Ok(v) => {
                app.todos = v;
                Ok(Startup { app, write: None })
            },
            Err(e) => Err(e),
        },
    }
}

impl App {
    /// The text that this state's entries are saved as on exit.
    pub fn saved_text(&self) -> (r: String)
        ensures
            r@ == json_text(self@.todos),
    {
        encode_todos(&self.todos)
    }
}

} // verus!
