use vstd::prelude::*;
use crate::types::{Secret, ListFormat, ItemFormat, RevealError, pairs_of};

verus! {

/// Whether `c` is a control character: U+0000 to U+001F and U+007F to U+009F.
pub open spec fn is_control(c: char) -> bool {
    (0 <= (c as int) && (c as int) < 0x20) || (0x7f <= (c as int) && (c as int) <= 0x9f)
}

/// The lower-case hexadecimal digit of `n`, for `n` below 16.
pub open spec fn hex_digit(n: int) -> char {
    if n < 10 {
        ((48 + n) as u8) as char
    } else {
        ((87 + n) as u8) as char
    }
}

/// The value of a hexadecimal digit, upper or lower case.
pub open spec fn hex_value(c: char) -> Option<int> {
    if '0' <= c && c <= '9' {
        Some(c as int - 48)
    } else if 'a' <= c && c <= 'f' {
        Some(c as int - 87)
    } else if 'A' <= c && c <= 'F' {
        Some(c as int - 55)
    } else {
        None
    }
}

/// The character whose code is `v`, for `v` below U+0100.
pub open spec fn code_char(v: int) -> char {
    (v as u8) as char
}

/// `\u00XX`: the escape that names a character below U+0100 by its code.
pub open spec fn unicode_escape(c: char) -> Seq<char> {
    seq!['\\', 'u', '0', '0', hex_digit((c as int) / 16), hex_digit((c as int) % 16)]
}

/// The characters that stand for `c` inside a double-quoted value: quotes,
/// backslashes and control characters are escaped in JSON's way, and for a
/// shell also the dollar sign and the backtick.
pub open spec fn escape_char(c: char, shell: bool) -> Seq<char> {
    if c == '"' || c == '\\' || (shell && (c == '$' || c == '`')) {
        seq!['\\', c]
    } else if c == '\n' {
        seq!['\\', 'n']
    } else if c == '\r' {
        seq!['\\', 'r']
    } else if c == '\t' {
        seq!['\\', 't']
    } else if is_control(c) {
        unicode_escape(c)
    } else {
        seq![c]
    }
}

/// `s` with each character escaped for a JSON or YAML string (`shell`
/// false) or for a double-quoted shell word (`shell` true).
pub open spec fn escaped_with(s: Seq<char>, shell: bool) -> Seq<char>
    decreases s.len(),
{
    if s.len() == 0 {
        Seq::empty()
    } else {
        escape_char(s[0], shell) + escaped_with(s.drop_first(), shell)
    }
}

/// `s` escaped for a JSON or YAML double-quoted string.
pub open spec fn escaped(s: Seq<char>) -> Seq<char> {
    escaped_with(s, false)
}

/// `s` escaped for a shell assignment `NAME="VALUE"`.
pub open spec fn shell_escaped(s: Seq<char>) -> Seq<char> {
    escaped_with(s, true)
}

/// Whether every double quote in `s` is preceded by a backslash.
pub open spec fn quotes_escaped(s: Seq<char>) -> bool {
    forall|i: int| 0 <= i < s.len() && #[trigger] s[i] == '"' ==> i > 0 && s[i - 1] == '\\'
}

proof fn lemma_escaped_push(s: Seq<char>, i: int, shell: bool)
    requires
        0 <= i < s.len(),
    ensures
        escaped_with(s.take(i + 1), shell) == escaped_with(s.take(i), shell) + escape_char(s[i], shell),
    decreases i,
{
    if i == 0 {
        assert(s.take(1).drop_first() =~= Seq::<char>::empty());
        assert(escaped_with(s.take(0), shell) == Seq::<char>::empty());
        assert(escaped_with(s.take(1).drop_first(), shell) == Seq::<char>::empty());
        assert(s.take(1)[0] == s[0]);
        assert(escaped_with(s.take(1), shell) =~= escape_char(s[0], shell));
    } else {
        let t = s.drop_first();
        lemma_escaped_push(t, i - 1, shell);
        assert(s.take(i + 1).drop_first() =~= t.take(i));
        assert(s.take(i).drop_first() =~= t.take(i - 1));
        assert(s.take(i + 1)[0] == s[0]);
        assert(s.take(i)[0] == s[0]);
        assert(t[i - 1] == s[i]);
        assert(escaped_with(s.take(i + 1), shell) =~= escaped_with(s.take(i), shell) + escape_char(s[i], shell));
    }
}

proof fn lemma_escape_char_clean(c: char, shell: bool)
    ensures
        forall|j: int| 0 <= j < escape_char(c, shell).len() ==> !is_control(#[trigger] escape_char(c, shell)[j]),
        quotes_escaped(escape_char(c, shell)),
{
    let e = escape_char(c, shell);
    if is_control(c) && !(c == '\n' || c == '\r' || c == '\t') {
        let v = c as int;
        assert(0 <= v / 16 < 16 && 0 <= v % 16 < 16);
        assert(e[4] == hex_digit(v / 16));
        assert(e[5] == hex_digit(v % 16));
    }
}

/// Escaping leaves no control character in the text, and every double quote
/// in it follows a backslash.
pub proof fn escaped_is_clean(s: Seq<char>, shell: bool)
    ensures
        forall|j: int| 0 <= j < escaped_with(s, shell).len() ==> !is_control(#[trigger] escaped_with(s, shell)[j]),
        quotes_escaped(escaped_with(s, shell)),
    decreases s.len(),
{
    if s.len() > 0 {
        let e = escape_char(s[0], shell);
        let t = escaped_with(s.drop_first(), shell);
        escaped_is_clean(s.drop_first(), shell);
        lemma_escape_char_clean(s[0], shell);
        let r = escaped_with(s, shell);
        assert(r == e + t);
        assert forall|j: int| 0 <= j < r.len() implies !is_control(#[trigger] r[j]) by {
            if j >= e.len() {
                assert(r[j] == t[j - e.len()]);
            }
        }
        assert forall|j: int| 0 <= j < r.len() && #[trigger] r[j] == '"' implies j > 0 && r[j - 1] == '\\' by {
            if j >= e.len() {
                assert(r[j] == t[j - e.len()]);
                if j - e.len() > 0 {
                    assert(r[j - 1] == t[j - 1 - e.len()]);
                }
            }
        }
    }
}

/// The exec form of `hex_digit`.
fn hex_char(n: u32) -> (r: char)
    requires
        n < 16,
    ensures
        r == hex_digit(n as int),
{
    if n < 10 {
        ((48 + n) as u8) as char
    } else {
        ((87 + n) as u8) as char
    }
}

/// Relies on String::push: the character is appended at the end.
#[verifier::external_body]
fn push_char(s: &mut String, c: char)
    ensures
        final(s)@ == old(s)@.push(c),
{
    s.push(c)
}

/// Appends the escaped form of `v` to `out`.
fn append_escaped(out: &mut String, v: &str, shell: bool)
    ensures
        final(out)@ == old(out)@ + escaped_with(v@, shell),
{
    let ghost start = out@;
    let n = v.unicode_len();
    let mut i: usize = 0;
    while i < n
        invariant
            n == v@.len(),
            i <= n,
            out@ == start + escaped_with(v@.take(i as int), shell),
        decreases n - i,
    {
        let c = v.get_char(i);
        proof {
            lemma_escaped_push(v@, i as int, shell);
        }
        let ghost mid = out@;
        if c == '"' || c == '\\' || (shell && (c == '$' || c == '`')) {
            push_char(out, '\\');
            push_char(out, c);
        } else if c == '\n' {
            out.append("\\n");
        } else if c == '\r' {
            out.append("\\r");
        } else if c == '\t' {
            out.append("\\t");
        } else if (c as u32) < 0x20 || (0x7f <= (c as u32) && (c as u32) <= 0x9f) {
            out.append("\\u00");
            push_char(out, hex_char((c as u32) / 16));
            push_char(out, hex_char((c as u32) % 16));
        } else {
            push_char(out, c);
        }
        proof {
            reveal_strlit("\\n");
            reveal_strlit("\\r");
            reveal_strlit("\\t");
            reveal_strlit("\\u00");
            assert(out@ =~= mid + escape_char(c, shell));
        }
        i = i + 1;
    }
    assert(v@.take(n as int) =~= v@);
}

/// Escapes a value so that it can stand between double quotes in a shell
/// assignment `NAME="VALUE"`: quotes, backslashes, dollar signs and backticks
/// are preceded by a backslash, and no control character is left.
pub fn sanitize_value(v: &str) -> (r: String)
    ensures
        r@ == shell_escaped(v@),
        forall|j: int| 0 <= j < r@.len() ==> !is_control(#[trigger] r@[j]),
        quotes_escaped(r@),
{
    let mut out = String::new();
    append_escaped(&mut out, v, true);
    proof {
        escaped_is_clean(v@, true);
    }
    out
}

/// `{"name":"`: what opens a rendered secret, up to its name.
pub open spec fn name_open() -> Seq<char> {
    seq!['{', '"', 'n', 'a', 'm', 'e', '"', ':', '"']
}

/// `","value":"`: what stands between a rendered name and its value.
pub open spec fn value_open() -> Seq<char> {
    seq![',', '"', 'v', 'a', 'l', 'u', 'e', '"', ':', '"']
}

/// One secret as a JSON object with the string members `name` and `value`.
pub open spec fn json_item(p: (Seq<char>, Seq<char>)) -> Seq<char> {
    name_open() + escaped(p.0) + seq!['"'] + value_open() + escaped(p.1) + seq!['"', '}']
}

/// The JSON objects of `ps`, separated by commas.
pub open spec fn json_items(ps: Seq<(Seq<char>, Seq<char>)>) -> Seq<char>
    decreases ps.len(),
{
    if ps.len() == 0 {
        Seq::empty()
    } else if ps.len() == 1 {
        json_item(ps[0])
    } else {
        json_item(ps[0]) + seq![','] + json_items(ps.drop_first())
    }
}

/// A list of secrets as a JSON array of objects.
pub open spec fn json_list(ps: Seq<(Seq<char>, Seq<char>)>) -> Seq<char> {
    seq!['['] + json_items(ps) + seq![']']
}

/// The character that an escape `\c` stands for.
pub open spec fn unescape_char(c: char) -> Option<char> {
    if c == '"' {
        Some('"')
    } else if c == '\\' {
        Some('\\')
    } else if c == 'n' {
        Some('\n')
    } else if c == 'r' {
        Some('\r')
    } else if c == 't' {
        Some('\t')
    } else {
        None
    }
}

/// Reads the rest of a JSON string whose opening quote is already read:
/// its decoded content and how many characters it took, the closing quote
/// included. A raw character below U+0020 is refused, as JSON demands; a
/// `\u` escape is read where it names a character below U+0100.
#[verifier::opaque]
pub open spec fn read_string(s: Seq<char>) -> Option<(Seq<char>, int)>
    decreases s.len(),
{
    if s.len() == 0 {
        None
    } else if s[0] == '"' {
        Some((Seq::empty(), 1))
    } else if s[0] == '\\' {
        if s.len() < 2 {
            None
        } else if s[1] == 'u' {
            if s.len() < 6 {
                None
            } else {
                match (hex_value(s[2]), hex_value(s[3]), hex_value(s[4]), hex_value(s[5])) {
                    (Some(h2), Some(h3), Some(h4), Some(h5)) => if h2 == 0 && h3 == 0 {
                        match read_string(s.subrange(6, s.len() as int)) {
                            None => None,
                            Some((t, k)) => Some((seq![code_char(h4 * 16 + h5)] + t, k + 6)),
                        }
                    } else {
                        None
                    },
                    _ => None,
                }
            }
        } else {
            match unescape_char(s[1]) {
                None => None,
                Some(c) => match read_string(s.subrange(2, s.len() as int)) {
                    None => None,
                    Some((t, k)) => Some((seq![c] + t, k + 2)),
                },
            }
        }
    } else if 0 <= (s[0] as int) && (s[0] as int) < 0x20 {
        None
    } else {
        match read_string(s.drop_first()) {
            None => None,
            Some((t, k)) => Some((seq![s[0]] + t, k + 1)),
        }
    }
}

/// Reads one secret object at the start of `s`: its (name, value) pair and
/// how many characters it took.
pub open spec fn read_item(s: Seq<char>) -> Option<((Seq<char>, Seq<char>), int)> {
    if s.len() < 9 || s.take(9) != name_open() {
        None
    } else {
        match read_string(s.skip(9)) {
            None => None,
            Some((n, a)) => {
                let s2 = s.skip(9 + a);
                if s2.len() < 10 || s2.take(10) != value_open() {
                    None
                } else {
                    match read_string(s2.skip(10)) {
                        None => None,
                        Some((v, b)) => {
                            let s3 = s2.skip(10 + b);
                            if s3.len() < 1 || s3[0] != '}' {
                                None
                            } else {
                                Some(((n, v), 9 + a + 10 + b + 1))
                            }
                        },
                    }
                }
            },
        }
    }
}

/// Reads comma-separated secret objects up to the closing bracket that ends `s`.
pub open spec fn read_items(s: Seq<char>) -> Option<Seq<(Seq<char>, Seq<char>)>>
    decreases s.len(),
{
    match read_item(s) {
        None => None,
        Some((p, k)) => if 0 < k < s.len() {
            let r = s.skip(k);
            if r.len() == 1 && r[0] == ']' {
                Some(seq![p])
            } else if r[0] == ',' {
                match read_items(r.skip(1)) {
                    None => None,
                    Some(ps) => Some(seq![p] + ps),
                }
            } else {
                None
            }
        } else {
            None
        },
    }
}

/// Reads a JSON array of secret objects back into its (name, value) pairs.
pub open spec fn read_json_list(s: Seq<char>) -> Option<Seq<(Seq<char>, Seq<char>)>> {
    if s.len() < 2 || s[0] != '[' {
        None
    } else if s.len() == 2 && s[1] == ']' {
        Some(Seq::empty())
    } else {
        read_items(s.drop_first())
    }
}

proof fn lemma_hex_round_trip(n: int)
    requires
        0 <= n < 16,
    ensures
        hex_value(hex_digit(n)) == Some(n),
{
    if n < 10 {
        assert(code_char(48 + n) as int == 48 + n);
        assert(hex_digit(n) == code_char(48 + n));
    } else {
        assert(code_char(87 + n) as int == 87 + n);
        assert(hex_digit(n) == code_char(87 + n));
    }
}

proof fn lemma_read_string(x: Seq<char>, rest: Seq<char>)
    ensures
        read_string(escaped(x) + seq!['"'] + rest) == Some((x, escaped(x).len() + 1int)),
    decreases x.len(),
{
    reveal_with_fuel(read_string, 1);
    let s = escaped(x) + seq!['"'] + rest;
    if x.len() == 0 {
        assert(s[0] == '"');
        assert(x =~= Seq::<char>::empty());
    } else {
        let c = x[0];
        let t = x.drop_first();
        lemma_read_string(t, rest);
        assert(escaped(x) == escape_char(c, false) + escaped(t));
        let e = escape_char(c, false);
        if e.len() == 6 {
            let v = c as int;
            let hi = v / 16;
            let lo = v % 16;
            assert(0 <= v < 0xa0);
            assert(0 <= hi < 16 && 0 <= lo < 16);
            assert(s.subrange(6, s.len() as int) =~= escaped(t) + seq!['"'] + rest);
            assert(s[0] == '\\' && s[1] == 'u' && s[2] == '0' && s[3] == '0');
            assert(s[4] == hex_digit(hi) && s[5] == hex_digit(lo));
            lemma_hex_round_trip(hi);
            lemma_hex_round_trip(lo);
            assert(hex_value(s[4]) == Some(hi));
            assert(hex_value(s[5]) == Some(lo));
            assert(hi * 16 + lo == v) by (nonlinear_arith)
                requires hi == v / 16, lo == v % 16;
            assert(code_char(v) == c);
            assert(code_char(hi * 16 + lo) == c);
        } else if e.len() == 2 {
            assert(s.subrange(2, s.len() as int) =~= escaped(t) + seq!['"'] + rest);
            assert(s[0] == '\\' && s[1] == e[1]);
        } else {
            assert(s.drop_first() =~= escaped(t) + seq!['"'] + rest);
            assert(s[0] == c);
        }
        assert(seq![c] + t =~= x);
    }
}

proof fn lemma_read_item(p: (Seq<char>, Seq<char>), rest: Seq<char>)
    ensures
        read_item(json_item(p) + rest) == Some((p, json_item(p).len() as int)),
{
    let s = json_item(p) + rest;
    let en = escaped(p.0);
    let ev = escaped(p.1);
    assert(s.take(9) =~= name_open());
    assert(s.skip(9) =~= en + seq!['"'] + (value_open() + ev + seq!['"', '}'] + rest));
    lemma_read_string(p.0, value_open() + ev + seq!['"', '}'] + rest);
    let a = en.len() + 1int;
    let s2 = s.skip(9 + a);
    assert(s2 =~= value_open() + ev + seq!['"', '}'] + rest);
    assert(s2.take(10) =~= value_open());
    assert(s2.skip(10) =~= ev + seq!['"'] + (seq!['}'] + rest));
    lemma_read_string(p.1, seq!['}'] + rest);
    let b = ev.len() + 1int;
    assert(s2.skip(10 + b) =~= seq!['}'] + rest);
}

proof fn lemma_read_items(ps: Seq<(Seq<char>, Seq<char>)>)
    requires
        ps.len() >= 1,
    ensures
        read_items(json_items(ps) + seq![']']) == Some(ps),
    decreases ps.len(),
{
    let p = ps[0];
    if ps.len() == 1 {
        let s = json_item(p) + seq![']'];
        lemma_read_item(p, seq![']']);
        assert(s.skip(json_item(p).len() as int) =~= seq![']']);
        assert(seq![p] =~= ps);
    } else {
        let t = ps.drop_first();
        let rest = seq![','] + json_items(t) + seq![']'];
        let s = json_item(p) + rest;
        assert(json_items(ps) + seq![']'] =~= s);
        lemma_read_item(p, rest);
        let k = json_item(p).len() as int;
        assert(s.skip(k) =~= rest);
        assert(rest.skip(1) =~= json_items(t) + seq![']']);
        lemma_read_items(t);
        assert(seq![p] + t =~= ps);
    }
}

/// Rendering secrets as JSON and reading the text back gives the same
/// (name, value) pairs, in the same order; what is printed for the JSON
/// format is that text and a line break.
pub proof fn json_round_trip(secrets: Seq<Secret>)
    ensures
        read_json_list(json_list(pairs_of(secrets))) == Some(pairs_of(secrets)),
        list_output(pairs_of(secrets), Some(ListFormat::Json)) == json_list(pairs_of(secrets)) + seq!['\n'],
{
    let ps = pairs_of(secrets);
    let s = json_list(ps);
    if ps.len() == 0 {
        assert(s =~= seq!['[', ']']);
        assert(ps =~= Seq::<(Seq<char>, Seq<char>)>::empty());
    } else {
        lemma_read_items(ps);
        assert(s.drop_first() =~= json_items(ps) + seq![']']);
    }
}

proof fn lemma_json_items_push(ps: Seq<(Seq<char>, Seq<char>)>, i: int)
    requires
        0 <= i < ps.len(),
    ensures
        json_items(ps.take(i + 1)) == json_items(ps.take(i)) + (if i == 0 {
            Seq::<char>::empty()
        } else {
            seq![',']
        }) + json_item(ps[i]),
    decreases i,
{
    if i == 0 {
        assert(ps.take(1).len() == 1);
        assert(ps.take(1)[0] == ps[0]);
        assert(json_items(ps.take(0)) == Seq::<char>::empty());
        assert(json_items(ps.take(1)) =~= Seq::<char>::empty() + Seq::<char>::empty() + json_item(ps[0]));
    } else {
        let t = ps.drop_first();
        lemma_json_items_push(t, i - 1);
        assert(ps.take(i + 1).drop_first() =~= t.take(i));
        assert(ps.take(i).drop_first() =~= t.take(i - 1));
        assert(ps.take(i + 1)[0] == ps[0]);
        assert(ps.take(i)[0] == ps[0]);
        assert(t[i - 1] == ps[i]);
        if i == 1 {
            assert(t.take(0).len() == 0);
            assert(json_items(ps.take(1)) == json_item(ps[0]));
        }
        assert(json_items(ps.take(i + 1)) =~= json_items(ps.take(i)) + seq![','] + json_item(ps[i]));
    }
}

/// Appends one secret as a JSON object.
fn append_json_item(out: &mut String, secret: &Secret)
    ensures
        final(out)@ == old(out)@ + json_item(secret.pair()),
{
    let ghost start = out@;
    out.append("{\"name\":\"");
    append_escaped(out, secret.name.as_str(), false);
    out.append("\",\"value\":\"");
    append_escaped(out, secret.value.as_str(), false);
    out.append("\"}");
    proof {
        reveal_strlit("{\"name\":\"");
        reveal_strlit("\",\"value\":\"");
        reveal_strlit("\"}");
        assert(out@ =~= start + json_item(secret.pair()));
    }
}

/// Renders secrets as a JSON array of objects with `name` and `value`.
pub fn render_json_list(secrets: &Vec<Secret>) -> (r: String)
    ensures
        r@ == json_list(pairs_of(secrets@)),
{
    let ghost ps = pairs_of(secrets@);
    let mut out = String::new();
    out.append("[");
    proof {
        reveal_strlit("[");
        assert(ps.take(0) =~= Seq::<(Seq<char>, Seq<char>)>::empty());
    }
    let n = secrets.len();
    let mut i: usize = 0;
    while i < n
        invariant
            n == secrets@.len(),
            ps == pairs_of(secrets@),
            i <= n,
            out@ == seq!['['] + json_items(ps.take(i as int)),
        decreases n - i,
    {
        if i > 0 {
            out.append(",");
            proof {
                reveal_strlit(",");
            }
        }
        append_json_item(&mut out, &secrets[i]);
        proof {
            lemma_json_items_push(ps, i as int);
            assert(ps[i as int] == secrets@[i as int].pair());
            assert(out@ =~= seq!['['] + json_items(ps.take(i as int + 1)));
        }
        i = i + 1;
    }
    out.append("]");
    proof {
        reveal_strlit("]");
        assert(ps.take(n as int) =~= ps);
        assert(out@ =~= json_list(ps));
    }
    out
}

/// `s` between double quotes, escaped.
pub open spec fn quoted(s: Seq<char>) -> Seq<char> {
    seq!['"'] + escaped(s) + seq!['"']
}

/// One secret as YAML: a mapping from `name` and `value` to quoted strings,
/// each line after the first starting with `indent`.
pub open spec fn yaml_item(p: (Seq<char>, Seq<char>), first: Seq<char>, indent: Seq<char>) -> Seq<char> {
    first + seq!['n', 'a', 'm', 'e', ':', ' '] + quoted(p.0) + seq!['\n'] + indent + seq![
        'v',
        'a',
        'l',
        'u',
        'e',
        ':',
        ' ',
    ] + quoted(p.1) + seq!['\n']
}

/// The entries of a YAML sequence of secrets.
pub open spec fn yaml_entries(ps: Seq<(Seq<char>, Seq<char>)>) -> Seq<char>
    decreases ps.len(),
{
    if ps.len() == 0 {
        Seq::empty()
    } else {
        yaml_entries(ps.drop_last()) + yaml_item(ps.last(), seq!['-', ' '], seq![' ', ' '])
    }
}

/// A list of secrets as a YAML sequence; an empty list is written `[]`.
pub open spec fn yaml_list(ps: Seq<(Seq<char>, Seq<char>)>) -> Seq<char> {
    if ps.len() == 0 {
        seq!['[', ']']
    } else {
        yaml_entries(ps)
    }
}

/// One row of a table: the name, a bar, the value, as they are.
pub open spec fn table_row(p: (Seq<char>, Seq<char>)) -> Seq<char> {
    p.0 + seq![' ', '|', ' '] + p.1 + seq!['\n']
}

/// The rows of a table of secrets.
pub open spec fn table_rows(ps: Seq<(Seq<char>, Seq<char>)>) -> Seq<char>
    decreases ps.len(),
{
    if ps.len() == 0 {
        Seq::empty()
    } else {
        table_rows(ps.drop_last()) + table_row(ps.last())
    }
}

/// The header of a table of secrets.
pub open spec fn table_header() -> Seq<char> {
    seq!['n', 'a', 'm', 'e', ' ', '|', ' ', 'v', 'a', 'l', 'u', 'e', '\n']
}

/// One secret as a block of two labelled lines and a blank line.
pub open spec fn item_block(p: (Seq<char>, Seq<char>)) -> Seq<char> {
    seq!['n', 'a', 'm', 'e', ':', ' '] + p.0 + seq!['\n', 'v', 'a', 'l', 'u', 'e', ':', ' '] + p.1
        + seq!['\n', '\n']
}

/// The blocks of a list of secrets, one after the other.
pub open spec fn item_blocks(ps: Seq<(Seq<char>, Seq<char>)>) -> Seq<char>
    decreases ps.len(),
{
    if ps.len() == 0 {
        Seq::empty()
    } else {
        item_blocks(ps.drop_last()) + item_block(ps.last())
    }
}

/// One `NAME="VALUE"` line, the value escaped for a shell.
pub open spec fn assignment_line(p: (Seq<char>, Seq<char>)) -> Seq<char> {
    p.0 + seq!['=', '"'] + shell_escaped(p.1) + seq!['"', '\n']
}

/// The `NAME="VALUE"` lines of a list of secrets, in order.
pub open spec fn assignment_lines(ps: Seq<(Seq<char>, Seq<char>)>) -> Seq<char>
    decreases ps.len(),
{
    if ps.len() == 0 {
        Seq::empty()
    } else {
        assignment_lines(ps.drop_last()) + assignment_line(ps.last())
    }
}

/// What is written for one secret in the given format: the bare value when
/// no format is asked for; the `item-table` format has no form for it.
pub open spec fn single_output(p: (Seq<char>, Seq<char>), fmt: Option<ListFormat>) -> Result<Seq<char>, RevealError> {
    match fmt {
        None => Ok(p.1),
        Some(ListFormat::Json) => Ok(json_item(p) + seq!['\n']),
        Some(ListFormat::Yaml) => Ok(yaml_item(p, Seq::empty(), Seq::empty()) + seq!['\n']),
        Some(ListFormat::Table) => Ok(table_header() + table_row(p) + seq!['\n']),
        Some(ListFormat::ItemTable) => Err(RevealError::UnsupportedFormat),
    }
}

/// What is written for a list of secrets in the given format: one
/// `NAME="VALUE"` line each when no format is asked for.
pub open spec fn list_output(ps: Seq<(Seq<char>, Seq<char>)>, fmt: Option<ListFormat>) -> Seq<char> {
    match fmt {
        None => assignment_lines(ps),
        Some(ListFormat::Json) => json_list(ps) + seq!['\n'],
        Some(ListFormat::Yaml) => yaml_list(ps) + seq!['\n'],
        Some(ListFormat::Table) => table_header() + table_rows(ps) + seq!['\n'],
        Some(ListFormat::ItemTable) => item_blocks(ps) + seq!['\n'],
    }
}

/// The format for a single secret that stands for a list format; a single
/// value has no item table.
pub fn item_format_for(fmt: ListFormat) -> (r: Result<ItemFormat, RevealError>)
    ensures
        fmt == ListFormat::Json ==> r == Ok::<ItemFormat, RevealError>(ItemFormat::Json),
        fmt == ListFormat::Yaml ==> r == Ok::<ItemFormat, RevealError>(ItemFormat::Yaml),
        fmt == ListFormat::Table ==> r == Ok::<ItemFormat, RevealError>(ItemFormat::Table),
        fmt == ListFormat::ItemTable ==> r == Err::<ItemFormat, RevealError>(RevealError::UnsupportedFormat),
{
    match fmt {
        ListFormat::Json => Ok(ItemFormat::Json),
        ListFormat::Yaml => Ok(ItemFormat::Yaml),
        ListFormat::Table => Ok(ItemFormat::Table),
        ListFormat::ItemTable => Err(RevealError::UnsupportedFormat),
    }
}

/// Appends a string between double quotes, escaped.
fn append_quoted(out: &mut String, v: &str)
    ensures
        final(out)@ == old(out)@ + quoted(v@),
{
    let ghost start = out@;
    out.append("\"");
    append_escaped(out, v, false);
    out.append("\"");
    proof {
        reveal_strlit("\"");
        assert(out@ =~= start + quoted(v@));
    }
}

/// Appends one secret as a YAML mapping.
fn append_yaml_item(out: &mut String, secret: &Secret, first: &str, indent: &str)
    ensures
        final(out)@ == old(out)@ + yaml_item(secret.pair(), first@, indent@),
{
    let ghost start = out@;
    out.append(first);
    out.append("name: ");
    append_quoted(out, secret.name.as_str());
    out.append("\n");
    out.append(indent);
    out.append("value: ");
    append_quoted(out, secret.value.as_str());
    out.append("\n");
    proof {
        reveal_strlit("name: ");
        reveal_strlit("value: ");
        reveal_strlit("\n");
        assert(out@ =~= start + yaml_item(secret.pair(), first@, indent@));
    }
}

/// Appends one table row.
fn append_table_row(out: &mut String, secret: &Secret)
    ensures
        final(out)@ == old(out)@ + table_row(secret.pair()),
{
    let ghost start = out@;
    out.append(secret.name.as_str());
    out.append(" | ");
    out.append(secret.value.as_str());
    out.append("\n");
    proof {
        reveal_strlit(" | ");
        reveal_strlit("\n");
        assert(out@ =~= start + table_row(secret.pair()));
    }
}

/// Appends the table header.
fn append_table_header(out: &mut String)
    ensures
        final(out)@ == old(out)@ + table_header(),
{
    let ghost start = out@;
    out.append("name | value\n");
    proof {
        reveal_strlit("name | value\n");
        assert(out@ =~= start + table_header());
    }
}

/// Appends one `NAME="VALUE"` line.
fn append_assignment_line(out: &mut String, secret: &Secret)
    ensures
        final(out)@ == old(out)@ + assignment_line(secret.pair()),
{
    let ghost start = out@;
    out.append(secret.name.as_str());
    out.append("=\"");
    append_escaped(out, secret.value.as_str(), true);
    out.append("\"\n");
    proof {
        reveal_strlit("=\"");
        reveal_strlit("\"\n");
        assert(out@ =~= start + assignment_line(secret.pair()));
    }
}

/// Appends one labelled block.
fn append_item_block(out: &mut String, secret: &Secret)
    ensures
        final(out)@ == old(out)@ + item_block(secret.pair()),
{
    let ghost start = out@;
    out.append("name: ");
    out.append(secret.name.as_str());
    out.append("\nvalue: ");
    out.append(secret.value.as_str());
    out.append("\n\n");
    proof {
        reveal_strlit("name: ");
        reveal_strlit("\nvalue: ");
        reveal_strlit("\n\n");
        assert(out@ =~= start + item_block(secret.pair()));
    }
}

/// The ways a list of secrets is laid out, one entry after another.
#[derive(Clone, Copy, Debug, PartialEq, Eq, Structural)]
pub enum Layout {
    Assignments,
    YamlEntries,
    TableRows,
    Blocks,
}

/// The text of the entries of `ps` in a layout.
pub open spec fn entries(ps: Seq<(Seq<char>, Seq<char>)>, layout: Layout) -> Seq<char> {
    match layout {
        Layout::Assignments => assignment_lines(ps),
        Layout::YamlEntries => yaml_entries(ps),
        Layout::TableRows => table_rows(ps),
        Layout::Blocks => item_blocks(ps),
    }
}

/// Appends the entries of `secrets` in a layout.
fn append_entries(out: &mut String, secrets: &Vec<Secret>, layout: Layout)
    ensures
        final(out)@ == old(out)@ + entries(pairs_of(secrets@), layout),
{
    let ghost start = out@;
    let ghost ps = pairs_of(secrets@);
    let n = secrets.len();
    let mut i: usize = 0;
    proof {
        assert(ps.take(0) =~= Seq::<(Seq<char>, Seq<char>)>::empty());
        assert(out@ =~= start + entries(ps.take(0), layout));
    }
    while i < n
        invariant
            n == secrets@.len(),
            ps == pairs_of(secrets@),
            i <= n,
            out@ == start + entries(ps.take(i as int), layout),
        decreases n - i,
    {
        let secret = &secrets[i];
        match layout {
            Layout::Assignments => append_assignment_line(out, secret),
            Layout::YamlEntries => append_yaml_item(out, secret, "- ", "  "),
            Layout::TableRows => append_table_row(out, secret),
            Layout::Blocks => append_item_block(out, secret),
        }
        proof {
            reveal_strlit("- ");
            reveal_strlit("  ");
            let t = ps.take(i as int + 1);
            assert(t.drop_last() =~= ps.take(i as int));
            assert(t.last() == ps[i as int]);
            assert(ps[i as int] == secrets@[i as int].pair());
            assert(seq!['-', ' '] =~= "- "@);
            assert(seq![' ', ' '] =~= "  "@);
            assert(out@ =~= start + entries(t, layout));
        }
        i = i + 1;
    }
    proof {
        assert(ps.take(n as int) =~= ps);
    }
}

/// The text of a rendering, or why there is none.
pub open spec fn text_of(r: Result<String, RevealError>) -> Result<Seq<char>, RevealError> {
    match r {
        Ok(s) => Ok(s@),
        Err(e) => Err(e),
    }
}

/// Renders one secret: its bare value when no format is asked for, else the
/// secret as one item of the format, which cannot be an item table.
pub fn render_single(secret: &Secret, fmt: Option<ListFormat>) -> (r: Result<String, RevealError>)
    ensures
        text_of(r) == single_output(secret.pair(), fmt),
{
    match fmt {
        None => Ok(secret.value.clone()),
        Some(f) => match item_format_for(f) {
            Err(e) => Err(e),
            Ok(item) => {
                let mut out = String::new();
                proof {
                    reveal_strlit("");
                    reveal_strlit("\n");
                }
                match item {
                    ItemFormat::Json => {
                        append_json_item(&mut out, secret);
                        out.append("\n");
                        assert(out@ =~= json_item(secret.pair()) + seq!['\n']);
                    },
                    ItemFormat::Yaml => {
                        append_yaml_item(&mut out, secret, "", "");
                        out.append("\n");
                        assert(""@ =~= Seq::<char>::empty());
                        assert(out@ =~= yaml_item(secret.pair(), Seq::empty(), Seq::empty()) + seq!['\n']);
                    },
                    ItemFormat::Table => {
                        append_table_header(&mut out);
                        append_table_row(&mut out, secret);
                        out.append("\n");
                        assert(out@ =~= table_header() + table_row(secret.pair()) + seq!['\n']);
                    },
                }
                Ok(out)
            },
        },
    }
}

/// Renders a list of secrets: one `NAME="VALUE"` line each, the value
/// escaped, when no format is asked for; else the whole list in the format.
pub fn render_all(secrets: &Vec<Secret>, fmt: Option<ListFormat>) -> (r: String)
    ensures
        r@ == list_output(pairs_of(secrets@), fmt),
{
    let ghost ps = pairs_of(secrets@);
    let mut out = String::new();
    proof {
        reveal_strlit("\n");
        reveal_strlit("[]");
    }
    match fmt {
        None => {
            append_entries(&mut out, secrets, Layout::Assignments);
            assert(out@ =~= list_output(ps, fmt));
        },
        Some(ListFormat::Json) => {
            out = render_json_list(secrets);
            out.append("\n");
            assert(out@ =~= list_output(ps, fmt));
        },
        Some(ListFormat::Yaml) => {
            assert(ps.len() == secrets@.len());
            if secrets.len() == 0 {
                out.append("[]");
                out.append("\n");
                assert(out@ =~= seq!['[', ']', '\n']);
            } else {
                append_entries(&mut out, secrets, Layout::YamlEntries);
                out.append("\n");
                assert(out@ =~= yaml_entries(ps) + seq!['\n']);
            }
            assert(out@ =~= list_output(ps, fmt));
        },
        Some(ListFormat::Table) => {
            append_table_header(&mut out);
            append_entries(&mut out, secrets, Layout::TableRows);
            out.append("\n");
            assert(out@ =~= list_output(ps, fmt));
        },
        Some(ListFormat::ItemTable) => {
            append_entries(&mut out, secrets, Layout::Blocks);
            out.append("\n");
            assert(out@ =~= list_output(ps, fmt));
        },
    }
    out
}

/// A single secret never renders as an item table, whatever its name and
/// value.
pub proof fn item_table_rejects_single(p: (Seq<char>, Seq<char>))
    ensures
        single_output(p, Some(ListFormat::ItemTable)) == Err::<Seq<char>, RevealError>(
            RevealError::UnsupportedFormat,
        ),
{
}

} // verus!
