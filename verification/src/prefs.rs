//! Browser preference values and the `user.js` file format.
//!
//! A pref value is a JSON scalar: a boolean, a number, or a string. Numbers
//! are carried as their source text, validated against the JSON number
//! grammar, so that writing a parsed pref reproduces it exactly. A `user.js`
//! file holds one line per pref, `pref("KEY", VALUE);`, where `VALUE` is the
//! JSON encoding of the scalar, with standard JSON string escaping.

use vstd::prelude::*;

use crate::text::{hex_char, hex_char_of, hex_val, hex_val_of, is_digit, lemma_hex_char,
    spec_is_digit};
use crate::ErrorMessage;

verus! {

/// The value of a pref: a JSON scalar.
///
/// Null, arrays, and objects are rejected when parsing.
#[derive(Debug)]
pub enum PrefValue {
    /// A JSON boolean.
    Bool(bool),
    /// A JSON number, kept as its source text.
    Num(String),
    /// A JSON string, unescaped.
    Str(String),
}

/// The mathematical value of a [`PrefValue`].
pub enum PrefValueV {
    BoolV(bool),
    NumV(Seq<char>),
    StrV(Seq<char>),
}

impl View for PrefValue {
    type V = PrefValueV;

    open spec fn view(&self) -> PrefValueV {
        match self {
            PrefValue::Bool(b) => PrefValueV::BoolV(*b),
            PrefValue::Num(s) => PrefValueV::NumV(s@),
            PrefValue::Str(s) => PrefValueV::StrV(s@),
        }
    }
}

impl Clone for PrefValue {
    fn clone(&self) -> (r: Self)
        ensures
            r@ == self@,
    {
        match self {
            PrefValue::Bool(b) => PrefValue::Bool(*b),
            PrefValue::Num(s) => PrefValue::Num(s.clone()),
            PrefValue::Str(s) => PrefValue::Str(s.clone()),
        }
    }
}

/// An error from parsing a pref or a pref value.
#[derive(Debug)]
pub enum PrefError {
    /// The value was JSON `null`, which prefs do not allow.
    Null,
    /// The value was a JSON array, which prefs do not allow.
    Array,
    /// The value was a JSON object, which prefs do not allow.
    Object,
    /// A `name:value` pref was missing the colon.
    ExpectedColon,
    /// The value was not well-formed JSON.
    Json(ErrorMessage),
}

// --- The JSON number grammar ----------------------------------------------

/// The index just past the run of digits starting at `i`.
pub open spec fn digits_end(s: Seq<char>, i: int) -> int
    decreases s.len() - i,
{
    if 0 <= i < s.len() && spec_is_digit(s[i]) {
        digits_end(s, i + 1)
    } else {
        i
    }
}

/// The index just past the integer part starting at `i`, or -1 if there is
/// no valid integer part (JSON: `0`, or a nonzero digit followed by digits).
pub open spec fn int_part_end(s: Seq<char>, i: int) -> int {
    if i < s.len() && s[i] == '0' {
        i + 1
    } else if i < s.len() && '1' <= s[i] && s[i] <= '9' {
        digits_end(s, i + 1)
    } else {
        -1
    }
}

/// The index just past the optional fraction part starting at `i`, or -1 if
/// a fraction starts there but is malformed.
pub open spec fn frac_end(s: Seq<char>, i: int) -> int {
    if i < s.len() && s[i] == '.' {
        if i + 1 < s.len() && spec_is_digit(s[i + 1]) {
            digits_end(s, i + 1)
        } else {
            -1
        }
    } else {
        i
    }
}

/// The index just past the optional exponent part starting at `i`, or -1 if
/// an exponent starts there but is malformed.
pub open spec fn exp_end(s: Seq<char>, i: int) -> int {
    if i < s.len() && (s[i] == 'e' || s[i] == 'E') {
        let j: int = if i + 1 < s.len() && (s[i + 1] == '+' || s[i + 1] == '-') {
            i + 2
        } else {
            i + 1
        };
        if j < s.len() && spec_is_digit(s[j]) {
            digits_end(s, j)
        } else {
            -1
        }
    } else {
        i
    }
}

/// Whether `s` is a JSON number: `-? (0 | [1-9][0-9]*) frac? exp?`.
pub open spec fn is_json_number(s: Seq<char>) -> bool {
    let i0: int = if s.len() > 0 && s[0] == '-' {
        1
    } else {
        0
    };
    let a = int_part_end(s, i0);
    &&& a >= 0
    &&& frac_end(s, a) >= 0
    &&& exp_end(s, frac_end(s, a)) == s.len()
}

/// Whether a pref value is well formed: every string is a value, and a
/// number must match the JSON number grammar.
pub open spec fn pref_value_ok(v: PrefValueV) -> bool {
    match v {
        PrefValueV::BoolV(_) => true,
        PrefValueV::NumV(s) => is_json_number(s),
        PrefValueV::StrV(_) => true,
    }
}

/// A pref key round-trips when it holds no quote, backslash, or control
/// character.
pub open spec fn pref_key_ok(k: Seq<char>) -> bool {
    forall|i: int|
        0 <= i < k.len() ==> (#[trigger] k[i]) != '"' && k[i] != '\\' && k[i] as int >= 32
}

// --- Rendering -------------------------------------------------------------

/// The standard JSON escaping of one string character: quote, backslash,
/// and the named control characters gain a backslash, other control
/// characters become `\u00XX`, and everything else stands as itself.
pub open spec fn escape_char(c: char) -> Seq<char> {
    if c == '"' {
        seq!['\\', '"']
    } else if c == '\\' {
        seq!['\\', '\\']
    } else if c == '\u{8}' {
        seq!['\\', 'b']
    } else if c == '\u{c}' {
        seq!['\\', 'f']
    } else if c == '\n' {
        seq!['\\', 'n']
    } else if c == '\r' {
        seq!['\\', 'r']
    } else if c == '\t' {
        seq!['\\', 't']
    } else if (c as u32) < 32 {
        seq!['\\', 'u', '0', '0', hex_char((c as u32 / 16) as int), hex_char((c as u32 % 16) as int)]
    } else {
        seq![c]
    }
}

/// The JSON escaping of a string body.
pub open spec fn escape_string(s: Seq<char>) -> Seq<char>
    decreases s.len(),
{
    if s.len() == 0 {
        Seq::empty()
    } else {
        escape_char(s[0]) + escape_string(s.drop_first())
    }
}

/// Escaping distributes over appending one character.
pub proof fn lemma_escape_push(s: Seq<char>, c: char)
    ensures
        escape_string(s.push(c)) == escape_string(s) + escape_char(c),
    decreases s.len(),
{
    reveal_with_fuel(escape_string, 3);
    if s.len() == 0 {
        assert(s.push(c).drop_first() =~= Seq::<char>::empty());
        assert(escape_string(s.push(c)) =~= escape_char(c));
        assert(escape_string(s) + escape_char(c) =~= escape_char(c));
    } else {
        assert(s.push(c).drop_first() =~= s.drop_first().push(c));
        lemma_escape_push(s.drop_first(), c);
        assert(escape_string(s.push(c)) =~= escape_char(s[0]) + (escape_string(s.drop_first())
            + escape_char(c)));
        assert(escape_string(s) + escape_char(c) =~= escape_char(s[0]) + (escape_string(
            s.drop_first(),
        ) + escape_char(c)));
    }
}

/// The JSON encoding of a pref value.
pub open spec fn encode_value(v: PrefValueV) -> Seq<char> {
    match v {
        PrefValueV::BoolV(b) => if b {
            "true"@
        } else {
            "false"@
        },
        PrefValueV::NumV(s) => s,
        PrefValueV::StrV(s) => seq!['"'] + escape_string(s) + seq!['"'],
    }
}

/// One line of a `user.js` file without its newline:
/// `pref("KEY", VALUE);`.
pub open spec fn pref_line_body(k: Seq<char>, v: PrefValueV) -> Seq<char> {
    "pref(\""@ + k + "\", "@ + encode_value(v) + ");"@
}

/// One line of a `user.js` file: `pref("KEY", VALUE);` and a newline.
pub open spec fn pref_line(k: Seq<char>, v: PrefValueV) -> Seq<char> {
    pref_line_body(k, v) + "\n"@
}

/// The rendering of a whole pref list, one line per pref.
pub open spec fn render_prefs(prefs: Seq<(Seq<char>, PrefValueV)>) -> Seq<char>
    decreases prefs.len(),
{
    if prefs.len() == 0 {
        Seq::empty()
    } else {
        pref_line(prefs[0].0, prefs[0].1) + render_prefs(prefs.drop_first())
    }
}

/// Rendering distributes over appending one pref.
pub proof fn lemma_render_push(prefs: Seq<(Seq<char>, PrefValueV)>, p: (Seq<char>, PrefValueV))
    ensures
        render_prefs(prefs.push(p)) == render_prefs(prefs) + pref_line(p.0, p.1),
    decreases prefs.len(),
{
    reveal_with_fuel(render_prefs, 3);
    if prefs.len() == 0 {
        assert(prefs.push(p).drop_first() =~= Seq::<(Seq<char>, PrefValueV)>::empty());
        assert(render_prefs(prefs.push(p)) =~= pref_line(p.0, p.1));
        assert(render_prefs(prefs) + pref_line(p.0, p.1) =~= pref_line(p.0, p.1));
    } else {
        assert(prefs.push(p).drop_first() =~= prefs.drop_first().push(p));
        lemma_render_push(prefs.drop_first(), p);
        assert(render_prefs(prefs.push(p)) =~= pref_line(prefs[0].0, prefs[0].1) + (render_prefs(
            prefs.drop_first(),
        ) + pref_line(p.0, p.1)));
        assert(render_prefs(prefs) + pref_line(p.0, p.1) =~= pref_line(prefs[0].0, prefs[0].1) + (
        render_prefs(prefs.drop_first()) + pref_line(p.0, p.1)));
    }
}

/// Append the escaped body of `s` to `out`.
fn escape_into(out: &mut String, s: &str)
    ensures
        final(out)@ == old(out)@ + escape_string(s@),
{
    let len = s.unicode_len();
    let mut i: usize = 0;
    while i < len
        invariant
            len == s@.len(),
            i <= len,
            out@ == old(out)@ + escape_string(s@.take(i as int)),
        decreases len - i,
    {
        let c = s.get_char(i);
        proof {
            assert(s@.take(i + 1) =~= s@.take(i as int).push(s@[i as int]));
            lemma_escape_push(s@.take(i as int), s@[i as int]);
        }
        if c == '"' {
            out.push('\\');
            out.push('"');
        } else if c == '\\' {
            out.push('\\');
            out.push('\\');
        } else if c == '\u{8}' {
            out.push('\\');
            out.push('b');
        } else if c == '\u{c}' {
            out.push('\\');
            out.push('f');
        } else if c == '\n' {
            out.push('\\');
            out.push('n');
        } else if c == '\r' {
            out.push('\\');
            out.push('r');
        } else if c == '\t' {
            out.push('\\');
            out.push('t');
        } else if (c as u32) < 32 {
            let v = c as u32;
            out.push('\\');
            out.push('u');
            out.push('0');
            out.push('0');
            out.push(hex_char_of(v / 16));
            out.push(hex_char_of(v % 16));
        } else {
            out.push(c);
        }
        proof {
            assert(out@ =~= old(out)@ + escape_string(s@.take(i + 1)));
        }
        i = i + 1;
    }
    proof {
        assert(s@.take(len as int) =~= s@);
    }
}

/// Append the JSON encoding of `v` to `out`.
pub fn encode_value_into(out: &mut String, v: &PrefValue)
    ensures
        final(out)@ == old(out)@ + encode_value(v@),
{
    match v {
        PrefValue::Bool(b) => {
            if *b {
                out.append("true");
            } else {
                out.append("false");
            }
        },
        PrefValue::Num(s) => {
            out.append(s.as_str());
        },
        PrefValue::Str(s) => {
            out.push('"');
            escape_into(out, s.as_str());
            out.push('"');
            proof {
                assert(out@ =~= old(out)@ + (seq!['"'] + escape_string(s@) + seq!['"']));
            }
        },
    }
}

/// Append `pref("KEY", VALUE);` lines for all the prefs to `out`.
///
/// Existing contents of `out` are preserved: the lines are appended.
pub fn write_prefs(out: &mut String, prefs: &Vec<(String, PrefValue)>)
    ensures
        final(out)@ == old(out)@ + render_prefs(crate::message::prefs_view(prefs@)),
{
    let ghost pv = crate::message::prefs_view(prefs@);
    let mut i: usize = 0;
    while i < prefs.len()
        invariant
            i <= prefs@.len(),
            pv == crate::message::prefs_view(prefs@),
            pv.len() == prefs@.len(),
            out@ == old(out)@ + render_prefs(pv.take(i as int)),
        decreases prefs@.len() - i,
    {
        let ghost pre = out@;
        let p: &(String, PrefValue) = &prefs[i];
        out.append("pref(\"");
        out.append(p.0.as_str());
        out.append("\", ");
        encode_value_into(out, &p.1);
        out.append(");\n");
        proof {
            reveal_strlit(");");
            reveal_strlit("\n");
            reveal_strlit(");\n");
            assert(pv[i as int] == (prefs@[i as int].0@, prefs@[i as int].1@));
            assert(pref_line(pv[i as int].0, pv[i as int].1) =~= "pref(\""@ + pv[i as int].0
                + "\", "@ + encode_value(pv[i as int].1) + ");\n"@);
            assert(out@ =~= pre + pref_line(pv[i as int].0, pv[i as int].1));
            assert(pv.take(i + 1) =~= pv.take(i as int).push(pv[i as int]));
            lemma_render_push(pv.take(i as int), pv[i as int]);
            assert(out@ =~= old(out)@ + render_prefs(pv.take(i + 1)));
        }
        i = i + 1;
    }
    proof {
        assert(pv.take(pv.len() as int) =~= pv);
    }
}

// --- Parsing ---------------------------------------------------------------

/// Every character scanned over by `digits_end` is a digit, and the scan
/// stays within bounds.
pub proof fn lemma_digits_end(s: Seq<char>, i: int)
    requires
        0 <= i <= s.len(),
    ensures
        i <= digits_end(s, i) <= s.len(),
        forall|j: int| i <= j < digits_end(s, i) ==> spec_is_digit(#[trigger] s[j]),
        digits_end(s, i) < s.len() ==> !spec_is_digit(s[digits_end(s, i)]),
    decreases s.len() - i,
{
    if 0 <= i < s.len() && spec_is_digit(s[i]) {
        lemma_digits_end(s, i + 1);
    }
}

/// Scan past the run of digits starting at `i`.
fn digits_end_exec(s: &str, i: usize) -> (r: usize)
    requires
        i <= s@.len(),
    ensures
        r == digits_end(s@, i as int),
        i <= r <= s@.len(),
{
    let len = s.unicode_len();
    let mut j: usize = i;
    let mut done = false;
    while !done && j < len
        invariant
            i <= j <= len,
            len == s@.len(),
            digits_end(s@, i as int) == digits_end(s@, j as int),
            done ==> digits_end(s@, j as int) == j,
        decreases len - j, (if done { 0int } else { 1int }),
    {
        let c = s.get_char(j);
        if !is_digit(c) {
            done = true;
        } else {
            j = j + 1;
        }
    }
    j
}

/// Decide whether `s` is a JSON number.
pub fn check_json_number(s: &str) -> (r: bool)
    ensures
        r == is_json_number(s@),
{
    let len = s.unicode_len();
    let i0: usize = if len > 0 && s.get_char(0) == '-' {
        1
    } else {
        0
    };
    let a: usize;
    if i0 < len && s.get_char(i0) == '0' {
        a = i0 + 1;
    } else if i0 < len && {
        let c = s.get_char(i0);
        '1' <= c && c <= '9'
    } {
        a = digits_end_exec(s, i0 + 1);
    } else {
        return false;
    }
    let b: usize;
    if a < len && s.get_char(a) == '.' {
        if a + 1 < len && is_digit(s.get_char(a + 1)) {
            b = digits_end_exec(s, a + 1);
        } else {
            return false;
        }
    } else {
        b = a;
    }
    let c_end: usize;
    if b < len && {
        let c = s.get_char(b);
        c == 'e' || c == 'E'
    } {
        let j: usize = if b + 1 < len && {
            let c = s.get_char(b + 1);
            c == '+' || c == '-'
        } {
            b + 2
        } else {
            b + 1
        };
        if j < len && is_digit(s.get_char(j)) {
            c_end = digits_end_exec(s, j);
        } else {
            return false;
        }
    } else {
        c_end = b;
    }
    c_end == len
}

/// The character a single-letter JSON escape stands for, or none.
pub open spec fn named_escape(c: char) -> Option<char> {
    if c == '"' {
        Some('"')
    } else if c == '\\' {
        Some('\\')
    } else if c == '/' {
        Some('/')
    } else if c == 'b' {
        Some('\u{8}')
    } else if c == 'f' {
        Some('\u{c}')
    } else if c == 'n' {
        Some('\n')
    } else if c == 'r' {
        Some('\r')
    } else if c == 't' {
        Some('\t')
    } else {
        None
    }
}

/// Undo the standard JSON escaping of a string body: the named escapes
/// and `\uXXXX` (for a non-surrogate code point) become their characters;
/// a bare quote, a dangling backslash, or any other escape is malformed.
pub open spec fn unescape_body(s: Seq<char>) -> Option<Seq<char>>
    decreases s.len(),
{
    if s.len() == 0 {
        Some(Seq::empty())
    } else if s[0] == '\\' {
        if s.len() < 2 {
            None
        } else {
            match named_escape(s[1]) {
                Some(m) => match unescape_body(s.skip(2)) {
                    Some(r) => Some(seq![m] + r),
                    None => None,
                },
                None => {
                    if s.len() >= 6 && s[1] == 'u' && hex_val(s[2]) >= 0 && hex_val(s[3]) >= 0
                        && hex_val(s[4]) >= 0 && hex_val(s[5]) >= 0 {
                        let v = hex_val(s[2]) * 4096 + hex_val(s[3]) * 256 + hex_val(s[4]) * 16
                            + hex_val(s[5]);
                        if 0xD800 <= v && v <= 0xDFFF {
                            None
                        } else {
                            match unescape_body(s.skip(6)) {
                                Some(r) => Some(seq![(v as u32) as char] + r),
                                None => None,
                            }
                        }
                    } else {
                        None
                    }
                },
            }
        }
    } else if s[0] == '"' {
        None
    } else {
        match unescape_body(s.skip(1)) {
            Some(r) => Some(seq![s[0]] + r),
            None => None,
        }
    }
}

/// Unescaping undoes escaping exactly, for every string.
pub proof fn lemma_unescape_escape(t: Seq<char>)
    ensures
        unescape_body(escape_string(t)) == Some(t),
    decreases t.len(),
{
    if t.len() == 0 {
    } else {
        lemma_unescape_escape(t.drop_first());
        let c = t[0];
        let e = escape_string(t);
        let rest = escape_string(t.drop_first());
        assert(e == escape_char(c) + rest);
        assert(seq![c] + t.drop_first() =~= t);
        if c == '"' || c == '\\' || c == '\u{8}' || c == '\u{c}' || c == '\n' || c == '\r' || c
            == '\t' {
            assert(e[0] == '\\' && named_escape(e[1]) == Some(c));
            assert(e.skip(2) =~= rest);
        } else if (c as u32) < 32 {
            let ci = (c as u32) as int;
            assert(e[0] == '\\' && e[1] == 'u' && e[2] == '0' && e[3] == '0' && e[4] == hex_char(
                ci / 16,
            ) && e[5] == hex_char(ci % 16));
            assert(named_escape('u') is None);
            lemma_hex_char(ci / 16);
            lemma_hex_char(ci % 16);
            assert(hex_val(e[2]) == 0 && hex_val(e[3]) == 0);
            let v = hex_val(e[2]) * 4096 + hex_val(e[3]) * 256 + hex_val(e[4]) * 16 + hex_val(
                e[5],
            );
            assert(v == ci / 16 * 16 + ci % 16);
            assert(ci / 16 * 16 + ci % 16 == ci) by (nonlinear_arith);
            assert(v == ci);
            assert(!(0xD800 <= v && v <= 0xDFFF));
            assert(e.skip(6) =~= rest);
            assert(((v as u32) as char) == c) by {
                vstd::utf8::char_u32_cast(c, c as u32);
            }
        } else {
            assert(e[0] == c);
            assert(e.skip(1) =~= rest);
        }
    }
}

/// What a JSON scalar text parses to.
pub enum ValueOutcome {
    /// The text was `null`.
    VNull,
    /// The text opened an array.
    VArray,
    /// The text opened an object.
    VObject,
    /// The text was a scalar with this value.
    VOk(PrefValueV),
    /// The text was not well-formed JSON.
    VBad,
}

/// Parse a JSON scalar text: exactly `null`, `true`, `false`, a number,
/// or a quoted string, with nothing around it.
pub open spec fn spec_parse_value(v: Seq<char>) -> ValueOutcome {
    if v == "null"@ {
        ValueOutcome::VNull
    } else if v.len() > 0 && v[0] == '[' {
        ValueOutcome::VArray
    } else if v.len() > 0 && v[0] == '{' {
        ValueOutcome::VObject
    } else if v == "true"@ {
        ValueOutcome::VOk(PrefValueV::BoolV(true))
    } else if v == "false"@ {
        ValueOutcome::VOk(PrefValueV::BoolV(false))
    } else if v.len() > 0 && v[0] == '"' {
        if v.len() >= 2 && v.last() == '"' {
            match unescape_body(v.subrange(1, v.len() - 1)) {
                Some(t) => ValueOutcome::VOk(PrefValueV::StrV(t)),
                None => ValueOutcome::VBad,
            }
        } else {
            ValueOutcome::VBad
        }
    } else if is_json_number(v) {
        ValueOutcome::VOk(PrefValueV::NumV(v))
    } else {
        ValueOutcome::VBad
    }
}

impl PrefValue {
    /// Parse the text of a JSON scalar into a pref value, rejecting
    /// `null`, arrays, and objects.
    pub fn try_from_text(v: &str) -> (r: Result<PrefValue, PrefError>)
        ensures
            match spec_parse_value(v@) {
                ValueOutcome::VNull => r matches Err(PrefError::Null),
                ValueOutcome::VArray => r matches Err(PrefError::Array),
                ValueOutcome::VObject => r matches Err(PrefError::Object),
                ValueOutcome::VOk(pv) => r matches Ok(p) && p@ == pv,
                ValueOutcome::VBad => r matches Err(PrefError::Json(_)),
            },
    {
        let len = v.unicode_len();
        if crate::zip::strings_equal(v, "null") {
            return Err(PrefError::Null);
        }
        if len > 0 && v.get_char(0) == '[' {
            return Err(PrefError::Array);
        }
        if len > 0 && v.get_char(0) == '{' {
            return Err(PrefError::Object);
        }
        if crate::zip::strings_equal(v, "true") {
            return Ok(PrefValue::Bool(true));
        }
        if crate::zip::strings_equal(v, "false") {
            return Ok(PrefValue::Bool(false));
        }
        if len > 0 && v.get_char(0) == '"' {
            if len < 2 || v.get_char(len - 1) != '"' {
                return Err(PrefError::Json(ErrorMessage("unterminated string".to_owned())));
            }
            let ghost body = v@.subrange(1, v@.len() - 1);
            let mut out = String::new();
            let mut i: usize = 1;
            let mut failed = false;
            let stop = len - 1;
            proof {
                assert(body.skip(0) =~= body);
                assert forall|r: Seq<char>| true implies Seq::<char>::empty() + r =~= r by {}
            }
            while !failed && i < stop
                invariant
                    1 <= i <= stop,
                    stop + 1 == v@.len(),
                    v@.len() >= 2,
                    body == v@.subrange(1, v@.len() - 1),
                    !failed ==> match unescape_body(body.skip(i - 1)) {
                        Some(r) => unescape_body(body) == Some(out@ + r),
                        None => unescape_body(body) is None,
                    },
                    failed ==> unescape_body(body) is None,
                decreases (if failed { 0int } else { 1int }), stop - i,
            {
                let c = v.get_char(i);
                proof {
                    assert(body.skip(i - 1)[0] == v@[i as int]);
                }
                if c == '\\' {
                    if i + 1 == stop {
                        proof {
                            assert(body.skip(i - 1).len() == 1);
                        }
                        failed = true;
                    } else {
                        let n = v.get_char(i + 1);
                        proof {
                            assert(body.skip(i - 1)[1] == v@[i + 1]);
                        }
                        let named: Option<char> = if n == '"' {
                            Some('"')
                        } else if n == '\\' {
                            Some('\\')
                        } else if n == '/' {
                            Some('/')
                        } else if n == 'b' {
                            Some('\u{8}')
                        } else if n == 'f' {
                            Some('\u{c}')
                        } else if n == 'n' {
                            Some('\n')
                        } else if n == 'r' {
                            Some('\r')
                        } else if n == 't' {
                            Some('\t')
                        } else {
                            None
                        };
                        proof {
                            assert(named == named_escape(n));
                        }
                        match named {
                            Some(m) => {
                                let ghost pre_out = out@;
                                proof {
                                    assert(body.skip(i - 1).skip(2) =~= body.skip(i + 1));
                                }
                                out.push(m);
                                proof {
                                    assert forall|r: Seq<char>|
                                        true implies pre_out + (seq![m] + r) =~= out@ + r by {}
                                }
                                i = i + 2;
                            },
                            None => {
                                if n != 'u' || stop - i <= 5 {
                                    proof {
                                        assert(body.skip(i - 1).len() < 6 || body.skip(i - 1)[1]
                                            != 'u');
                                    }
                                    failed = true;
                                } else {
                                    let h1 = hex_val_of(v.get_char(i + 2));
                                    let h2 = hex_val_of(v.get_char(i + 3));
                                    let h3 = hex_val_of(v.get_char(i + 4));
                                    let h4 = hex_val_of(v.get_char(i + 5));
                                    proof {
                                        assert(body.skip(i - 1)[2] == v@[i + 2]);
                                        assert(body.skip(i - 1)[3] == v@[i + 3]);
                                        assert(body.skip(i - 1)[4] == v@[i + 4]);
                                        assert(body.skip(i - 1)[5] == v@[i + 5]);
                                    }
                                    if h1 < 0 || h2 < 0 || h3 < 0 || h4 < 0 {
                                        failed = true;
                                    } else {
                                        let val: u32 = (h1 as u32) * 4096 + (h2 as u32) * 256 + (
                                        h3 as u32) * 16 + (h4 as u32);
                                        if 0xD800 <= val && val <= 0xDFFF {
                                            failed = true;
                                        } else {
                                            match char::from_u32(val) {
                                                Some(ch) => {
                                                    let ghost pre_out = out@;
                                                    proof {
                                                        assert(body.skip(i - 1).skip(6)
                                                            =~= body.skip(i + 5));
                                                        assert(((val as u32) as char) == ch) by {
                                                            vstd::utf8::char_u32_cast(ch, val);
                                                        }
                                                    }
                                                    out.push(ch);
                                                    proof {
                                                        assert forall|r: Seq<char>|
                                                            true implies pre_out + (seq![ch] + r)
                                                            =~= out@ + r by {}
                                                    }
                                                    i = i + 6;
                                                },
                                                None => {
                                                    proof {
                                                        assert(false);
                                                    }
                                                    failed = true;
                                                },
                                            }
                                        }
                                    }
                                }
                            },
                        }
                    }
                } else if c == '"' {
                    failed = true;
                } else {
                    let ghost pre_out = out@;
                    proof {
                        assert(body.skip(i - 1).skip(1) =~= body.skip(i as int));
                    }
                    out.push(c);
                    proof {
                        assert forall|r: Seq<char>|
                            true implies pre_out + (seq![c] + r) =~= out@ + r by {}
                    }
                    i = i + 1;
                }
            }
            if failed {
                return Err(PrefError::Json(ErrorMessage("bad string body".to_owned())));
            }
            proof {
                assert(body.skip(i - 1) =~= Seq::<char>::empty());
                assert(out@ + Seq::<char>::empty() =~= out@);
            }
            return Ok(PrefValue::Str(out));
        }
        if check_json_number(v) {
            Ok(PrefValue::Num(v.to_owned()))
        } else {
            Err(PrefError::Json(ErrorMessage("not a JSON scalar".to_owned())))
        }
    }
}

/// The first index at or after `i` where `c` occurs, or the length.
pub open spec fn scan_to(s: Seq<char>, i: int, c: char) -> int
    decreases s.len() - i,
{
    if 0 <= i < s.len() && s[i] != c {
        scan_to(s, i + 1, c)
    } else {
        i
    }
}

/// `scan_to` stays in bounds and stops exactly at the first occurrence.
pub proof fn lemma_scan_to(s: Seq<char>, i: int, c: char)
    requires
        0 <= i <= s.len(),
    ensures
        i <= scan_to(s, i, c) <= s.len(),
        forall|j: int| i <= j < scan_to(s, i, c) ==> s[j] != c,
        scan_to(s, i, c) < s.len() ==> s[scan_to(s, i, c)] == c,
    decreases s.len() - i,
{
    if 0 <= i < s.len() && s[i] != c {
        lemma_scan_to(s, i + 1, c);
    }
}

/// A position that is the first occurrence is where `scan_to` stops.
proof fn lemma_scan_to_at(s: Seq<char>, i: int, e: int, c: char)
    requires
        0 <= i <= e <= s.len(),
        forall|j: int| i <= j < e ==> s[j] != c,
        e == s.len() || s[e] == c,
    ensures
        scan_to(s, i, c) == e,
    decreases e - i,
{
    if i < e {
        lemma_scan_to_at(s, i + 1, e, c);
    }
}

/// Scan for the first occurrence of `c` at or after `i`.
fn scan_to_exec(s: &str, i: usize, c: char) -> (r: usize)
    requires
        i <= s@.len(),
    ensures
        r == scan_to(s@, i as int, c),
        i <= r <= s@.len(),
{
    let len = s.unicode_len();
    let mut j: usize = i;
    let mut done = false;
    while !done && j < len
        invariant
            i <= j <= len,
            len == s@.len(),
            scan_to(s@, i as int, c) == scan_to(s@, j as int, c),
            done ==> scan_to(s@, j as int, c) == j,
        decreases (if done { 0int } else { 1int }), len - j,
    {
        if s.get_char(j) == c {
            done = true;
        } else {
            j = j + 1;
        }
    }
    j
}

/// Parse one `user.js` line, without its newline:
/// `pref("KEY", VALUE);` with a JSON scalar `VALUE`.
pub open spec fn spec_parse_line(line: Seq<char>) -> Option<(Seq<char>, PrefValueV)> {
    if line.len() < 6 || line.take(6) != "pref(\""@ {
        None
    } else {
        let ke = scan_to(line, 6, '"');
        if ke >= line.len() {
            None
        } else if ke + 3 > line.len() - 2 {
            None
        } else if line[ke + 1] != ',' || line[ke + 2] != ' ' || line[line.len() - 2] != ')'
            || line[line.len() - 1] != ';' {
            None
        } else {
            let key = line.subrange(6, ke);
            let value = line.subrange(ke + 3, line.len() - 2);
            match spec_parse_value(value) {
                ValueOutcome::VOk(pv) => Some((key, pv)),
                _ => None,
            }
        }
    }
}

/// Parse a whole `user.js`: newline-terminated pref lines.
pub open spec fn spec_parse_user_js(s: Seq<char>) -> Option<Seq<(Seq<char>, PrefValueV)>>
    decreases s.len(),
    via spec_parse_user_js_decreases
{
    if s.len() == 0 {
        Some(Seq::empty())
    } else {
        let e = scan_to(s, 0, '\n');
        if e >= s.len() {
            None
        } else {
            match spec_parse_line(s.take(e)) {
                None => None,
                Some(p) => match spec_parse_user_js(s.skip(e + 1)) {
                    None => None,
                    Some(r) => Some(seq![p] + r),
                },
            }
        }
    }
}

#[via_fn]
proof fn spec_parse_user_js_decreases(s: Seq<char>) {
    if s.len() > 0 {
        lemma_scan_to(s, 0, '\n');
    }
}

/// Parse one `user.js` line.
fn parse_line(line: &str) -> (r: Option<(String, PrefValue)>)
    ensures
        match r {
            Some(p) => spec_parse_line(line@) == Some((p.0@, p.1@)),
            None => spec_parse_line(line@) is None,
        },
{
    let len = line.unicode_len();
    if len < 6 {
        return None;
    }
    let head = line.substring_char(0, 6);
    proof {
        assert(head@ =~= line@.take(6));
    }
    if !crate::zip::strings_equal(head, "pref(\"") {
        return None;
    }
    let ke = scan_to_exec(line, 6, '"');
    if ke == len {
        return None;
    }
    if ke > len - 5 {
        return None;
    }
    proof {
        assert(ke + 3 <= len - 2);
    }
    if line.get_char(ke + 1) != ',' || line.get_char(ke + 2) != ' ' || line.get_char(len - 2)
        != ')' || line.get_char(len - 1) != ';' {
        return None;
    }
    let key_slice = line.substring_char(6, ke);
    let key: String = key_slice.to_owned();
    let value_slice = line.substring_char(ke + 3, len - 2);
    match PrefValue::try_from_text(value_slice) {
        Ok(p) => Some((key, p)),
        Err(_) => None,
    }
}

/// Parse a whole `user.js` into its pref list.
pub fn parse_user_js(s: &str) -> (r: Result<Vec<(String, PrefValue)>, PrefError>)
    ensures
        match r {
            Ok(prefs) => spec_parse_user_js(s@) == Some(crate::message::prefs_view(prefs@)),
            Err(_) => spec_parse_user_js(s@) is None,
        },
{
    let len = s.unicode_len();
    let mut acc: Vec<(String, PrefValue)> = Vec::new();
    let mut pos: usize = 0;
    let mut failed = false;
    proof {
        assert(s@.skip(0) =~= s@);
        assert forall|r: Seq<(Seq<char>, PrefValueV)>|
            true implies crate::message::prefs_view(acc@) + r =~= r by {
            assert(crate::message::prefs_view(acc@) =~= Seq::<(Seq<char>, PrefValueV)>::empty());
        }
    }
    while !failed && pos < len
        invariant
            pos <= len,
            len == s@.len(),
            !failed ==> match spec_parse_user_js(s@.skip(pos as int)) {
                Some(rest) => spec_parse_user_js(s@) == Some(
                    crate::message::prefs_view(acc@) + rest,
                ),
                None => spec_parse_user_js(s@) is None,
            },
            failed ==> spec_parse_user_js(s@) is None,
        decreases (if failed { 0int } else { 1int }), len - pos,
    {
        let ghost tail = s@.skip(pos as int);
        let e = scan_to_exec(s, pos, '\n');
        proof {
            lemma_scan_to(s@, pos as int, '\n');
            lemma_scan_to_at(tail, 0, e - pos, '\n');
            assert(scan_to(tail, 0, '\n') == e - pos);
        }
        if e == len {
            failed = true;
        } else {
            let line = s.substring_char(pos, e);
            proof {
                assert(line@ =~= tail.take(e - pos));
            }
            match parse_line(line) {
                None => {
                    failed = true;
                },
                Some(p) => {
                    let ghost pre_acc = acc@;
                    let ghost pv = (p.0@, p.1@);
                    acc.push(p);
                    proof {
                        assert(tail.skip(e - pos + 1) =~= s@.skip(e + 1));
                        assert(crate::message::prefs_view(acc@) =~= crate::message::prefs_view(
                            pre_acc,
                        ).push(pv));
                        assert forall|r: Seq<(Seq<char>, PrefValueV)>|
                            true implies crate::message::prefs_view(pre_acc) + (seq![pv] + r)
                            =~= crate::message::prefs_view(acc@) + r by {}
                    }
                    pos = e + 1;
                },
            }
        }
    }
    if failed {
        return Err(PrefError::Json(ErrorMessage("malformed user.js".to_owned())));
    }
    proof {
        assert(s@.skip(pos as int) =~= Seq::<char>::empty());
        assert(crate::message::prefs_view(acc@) + Seq::<(Seq<char>, PrefValueV)>::empty()
            =~= crate::message::prefs_view(acc@));
    }
    Ok(acc)
}

/// Parse a pref of the form `name:value`, where `value` is a JSON
/// scalar.
pub fn parse_pref(s: &str) -> (r: Result<(String, PrefValue), PrefError>)
    ensures
        ({
            let ce = scan_to(s@, 0, ':');
            if ce >= s@.len() {
                r matches Err(PrefError::ExpectedColon)
            } else {
                let key = s@.take(ce);
                let val = s@.subrange(ce + 1, s@.len() as int);
                match spec_parse_value(val) {
                    ValueOutcome::VNull => r matches Err(PrefError::Null),
                    ValueOutcome::VArray => r matches Err(PrefError::Array),
                    ValueOutcome::VObject => r matches Err(PrefError::Object),
                    ValueOutcome::VOk(pv) => r matches Ok(p) && p.0@ == key && p.1@ == pv,
                    ValueOutcome::VBad => r matches Err(PrefError::Json(_)),
                }
            }
        }),
{
    let len = s.unicode_len();
    let ce = scan_to_exec(s, 0, ':');
    if ce == len {
        return Err(PrefError::ExpectedColon);
    }
    let key_slice = s.substring_char(0, ce);
    let key: String = key_slice.to_owned();
    proof {
        assert(key@ =~= s@.take(ce as int));
    }
    let value_slice = s.substring_char(ce + 1, len);
    match PrefValue::try_from_text(value_slice) {
        Ok(p) => Ok((key, p)),
        Err(e) => Err(e),
    }
}

// --- The round trip --------------------------------------------------------

/// Every character of a JSON number is a digit or one of `-.eE+`; in
/// particular none is a newline, a quote, or a letter that could begin
/// `null`, `true`, or `false`.
proof fn lemma_json_number_chars(s: Seq<char>)
    requires
        is_json_number(s),
    ensures
        s.len() > 0,
        s[0] == '-' || spec_is_digit(s[0]),
        forall|j: int|
            0 <= j < s.len() ==> (#[trigger] s[j]) == '-' || s[j] == '+' || s[j] == '.' || s[j]
                == 'e' || s[j] == 'E' || spec_is_digit(s[j]),
{
    let i0: int = if s.len() > 0 && s[0] == '-' {
        1
    } else {
        0
    };
    let a = int_part_end(s, i0);
    let b = frac_end(s, a);
    let c = exp_end(s, b);
    lemma_digits_end(s, i0 + 1);
    assert(i0 < s.len());
    assert forall|j: int|
        0 <= j < s.len() implies (#[trigger] s[j]) == '-' || s[j] == '+' || s[j] == '.' || s[j]
        == 'e' || s[j] == 'E' || spec_is_digit(s[j]) by {
        if j < i0 {
            assert(s[j] == '-');
        } else if j < a {
            if s[i0] == '0' {
                assert(j == i0);
                assert(spec_is_digit(s[j]));
            } else {
                if j == i0 {
                    assert(spec_is_digit(s[j]));
                } else {
                    assert(i0 + 1 <= j < digits_end(s, i0 + 1));
                    assert(spec_is_digit(s[j]));
                }
            }
        } else if j < b {
            assert(s[a] == '.');
            lemma_digits_end(s, a + 1);
            if j == a {
                assert(s[j] == '.');
            } else {
                assert(a + 1 <= j < digits_end(s, a + 1));
                assert(spec_is_digit(s[j]));
            }
        } else {
            assert(b <= j < c);
            assert(s[b] == 'e' || s[b] == 'E');
            let k: int = if b + 1 < s.len() && (s[b + 1] == '+' || s[b + 1] == '-') {
                b + 2
            } else {
                b + 1
            };
            lemma_digits_end(s, k);
            if j == b {
            } else if j < k {
                assert(s[j] == '+' || s[j] == '-');
            } else {
                assert(k <= j < digits_end(s, k));
                assert(spec_is_digit(s[j]));
            }
        }
    }
}

/// The escaped body of any string holds only printable characters: the
/// escaping replaces every control character.
proof fn lemma_escape_chars(t: Seq<char>)
    ensures
        forall|j: int|
            0 <= j < escape_string(t).len() ==> (#[trigger] escape_string(t)[j]) as u32 >= 32,
    decreases t.len(),
{
    if t.len() == 0 {
    } else {
        lemma_escape_chars(t.drop_first());
        let c = t[0];
        let e = escape_string(t);
        let rest = escape_string(t.drop_first());
        assert(e == escape_char(c) + rest);
        assert forall|j: int| 0 <= j < e.len() implies (#[trigger] e[j]) as u32 >= 32 by {
            if j < escape_char(c).len() {
                assert(e[j] == escape_char(c)[j]);
                if (c as u32) < 32 && c != '\u{8}' && c != '\u{c}' && c != '\n' && c != '\r' && c
                    != '\t' && c != '"' && c != '\\' {
                    lemma_hex_char((c as u32 / 16) as int);
                    lemma_hex_char((c as u32 % 16) as int);
                }
            } else {
                assert(e[j] == rest[j - escape_char(c).len()]);
            }
        }
    }
}

/// Parsing the JSON encoding of a well-formed pref value yields that
/// value back.
pub proof fn lemma_parse_value_of_encode(v: PrefValueV)
    requires
        pref_value_ok(v),
    ensures
        spec_parse_value(encode_value(v)) == ValueOutcome::VOk(v),
{
    reveal_strlit("null");
    reveal_strlit("true");
    reveal_strlit("false");
    let e = encode_value(v);
    match v {
        PrefValueV::BoolV(b) => {
            if b {
                assert("true"@ != "null"@) by {
                    assert("true"@[0] == 't' && "null"@[0] == 'n');
                }
                assert(e[0] == 't');
            } else {
                assert("false"@ != "null"@) by {
                    assert("false"@.len() == 5 && "null"@.len() == 4);
                }
                assert("false"@ != "true"@) by {
                    assert("false"@.len() == 5 && "true"@.len() == 4);
                }
                assert(e[0] == 'f');
            }
        },
        PrefValueV::NumV(s) => {
            lemma_json_number_chars(s);
            assert(s[0] != 'n' && s[0] != 't' && s[0] != 'f' && s[0] != '[' && s[0] != '{' && s[0]
                != '"') by {
                if s[0] == '-' {
                } else {
                    assert('0' <= s[0] <= '9');
                }
            }
            assert(s != "null"@) by {
                if s.len() == "null"@.len() {
                    assert("null"@[0] == 'n');
                }
            }
            assert(s != "true"@) by {
                if s.len() == "true"@.len() {
                    assert("true"@[0] == 't');
                }
            }
            assert(s != "false"@) by {
                if s.len() == "false"@.len() {
                    assert("false"@[0] == 'f');
                }
            }
        },
        PrefValueV::StrV(t) => {
            assert(e == seq!['"'] + escape_string(t) + seq!['"']);
            assert(e.len() >= 2);
            assert(e[0] == '"');
            assert(e.last() == '"');
            assert(e != "null"@) by {
                if e.len() == "null"@.len() {
                    assert("null"@[0] == 'n');
                }
            }
            assert(e != "true"@) by {
                if e.len() == "true"@.len() {
                    assert("true"@[0] == 't');
                }
            }
            assert(e != "false"@) by {
                if e.len() == "false"@.len() {
                    assert("false"@[0] == 'f');
                }
            }
            assert(e.subrange(1, e.len() - 1) =~= escape_string(t));
            lemma_unescape_escape(t);
        },
    }
}

/// A rendered pref line parses back to its pref, and holds no newline
/// before its terminator.
proof fn lemma_line_body(k: Seq<char>, v: PrefValueV)
    requires
        pref_key_ok(k),
        pref_value_ok(v),
    ensures
        spec_parse_line(pref_line_body(k, v)) == Some((k, v)),
        forall|j: int|
            0 <= j < pref_line_body(k, v).len() ==> (#[trigger] pref_line_body(k, v)[j]) != '\n',
{
    reveal_strlit("pref(\"");
    reveal_strlit("\", ");
    reveal_strlit(");");
    reveal_strlit("true");
    reveal_strlit("false");
    let body = pref_line_body(k, v);
    let enc = encode_value(v);
    let klen = k.len() as int;
    assert(body.len() == 11 + klen + enc.len());
    assert(body.take(6) =~= "pref(\""@);
    // The key's closing quote is the first quote after the prefix.
    assert forall|j: int| 6 <= j < 6 + klen implies body[j] != '"' by {
        assert(body[j] == k[j - 6]);
    }
    assert(body[6 + klen] == "\", "@[0]);
    assert("\", "@[0] == '"' && "\", "@[1] == ',' && "\", "@[2] == ' ');
    lemma_scan_to_at(body, 6, 6 + klen, '"');
    let ke = 6 + klen;
    assert(scan_to(body, 6, '"') == ke);
    assert(body[ke + 1] == ',' && body[ke + 2] == ' ');
    assert(body[body.len() - 2] == ");"@[0] && body[body.len() - 1] == ");"@[1]);
    assert(");"@[0] == ')' && ");"@[1] == ';');
    assert(body.subrange(6, ke) =~= k);
    assert(body.subrange(ke + 3, body.len() - 2) =~= enc);
    lemma_parse_value_of_encode(v);
    assert(spec_parse_line(body) == Some((k, v)));
    // No newline anywhere in the line body.
    assert forall|j: int| 0 <= j < body.len() implies (#[trigger] body[j]) != '\n' by {
        assert('\n' as int == 10);
        if j < 6 {
            assert(body[j] == "pref(\""@[j]);
        } else if j < ke {
            assert(body[j] == k[j - 6]);
            assert(k[j - 6] as int >= 32);
        } else if j < ke + 3 {
            assert(body[j] == "\", "@[j - ke]);
        } else if j < body.len() - 2 {
            assert(body[j] == enc[j - ke - 3]);
            match v {
                PrefValueV::BoolV(b) => {
                    if b {
                        assert(enc[j - ke - 3] == "true"@[j - ke - 3]);
                    } else {
                        assert(enc[j - ke - 3] == "false"@[j - ke - 3]);
                    }
                },
                PrefValueV::NumV(sn) => {
                    lemma_json_number_chars(sn);
                    assert(!spec_is_digit('\n'));
                },
                PrefValueV::StrV(t) => {
                    lemma_escape_chars(t);
                    let es = escape_string(t);
                    if j - ke - 3 == 0 {
                        assert(enc[0] == '"');
                    } else if j - ke - 3 < 1 + es.len() {
                        assert(enc[j - ke - 3] == es[j - ke - 4]);
                        assert(es[j - ke - 4] as u32 >= 32);
                        assert(es[j - ke - 4] != '\n');
                    } else {
                        assert(enc[j - ke - 3] == '"');
                    }
                },
            }
        } else {
            assert(body[j] == ");"@[j - (body.len() - 2)]);
        }
    }
}

/// Writing a pref list and parsing the `user.js` text produced yields the
/// same list back: the `user.js` encoding round-trips, for every list of
/// well-formed keys and values.
pub proof fn lemma_prefs_round_trip(prefs: Seq<(Seq<char>, PrefValueV)>)
    requires
        forall|i: int|
            0 <= i < prefs.len() ==> pref_key_ok((#[trigger] prefs[i]).0) && pref_value_ok(
                prefs[i].1,
            ),
    ensures
        spec_parse_user_js(render_prefs(prefs)) == Some(prefs),
    decreases prefs.len(),
{
    reveal_strlit("\n");
    if prefs.len() == 0 {
    } else {
        let k = prefs[0].0;
        let v = prefs[0].1;
        let rest = prefs.drop_first();
        assert(forall|i: int|
            0 <= i < rest.len() ==> pref_key_ok((#[trigger] rest[i]).0) && pref_value_ok(
                rest[i].1,
            )) by {
            assert(forall|i: int| 0 <= i < rest.len() ==> rest[i] == prefs[i + 1]);
        }
        lemma_prefs_round_trip(rest);
        lemma_line_body(k, v);
        let body = pref_line_body(k, v);
        let s = render_prefs(prefs);
        assert(s == pref_line(k, v) + render_prefs(rest));
        assert(s.len() == body.len() + 1 + render_prefs(rest).len());
        assert(s[body.len() as int] == '\n') by {
            assert(pref_line(k, v)[body.len() as int] == "\n"@[0]);
        }
        assert forall|j: int| 0 <= j < body.len() implies s[j] != '\n' by {
            assert(s[j] == body[j]);
        }
        lemma_scan_to_at(s, 0, body.len() as int, '\n');
        assert(s.take(body.len() as int) =~= body);
        assert(s.skip(body.len() as int + 1) =~= render_prefs(rest));
        assert(seq![(k, v)] + rest =~= prefs);
    }
}

} // verus!
