//! Text helpers shared by the planners: identifier quoting, string equality,
//! whitespace trimming and decimal formatting.

use vstd::prelude::*;

verus! {

/// Doubles every double quote of `s`, as SQL requires inside a quoted identifier.
pub open spec fn escape_quotes(s: Seq<char>) -> Seq<char>
    decreases s.len(),
{
    if s.len() == 0 {
        Seq::empty()
    } else if s.last() == '"' {
        escape_quotes(s.drop_last()) + seq!['"', '"']
    } else {
        escape_quotes(s.drop_last()).push(s.last())
    }
}

/// The quoted SQL identifier for `name`.
pub open spec fn quoted_ident(name: Seq<char>) -> Seq<char> {
    seq!['"'] + escape_quotes(name) + seq!['"']
}

/// Quotes `name` as a PostgreSQL identifier: wraps it in double quotes and
/// doubles every double quote inside it.
pub fn pg_quote_ident(name: &str) -> (quoted: String)
    ensures
        quoted@ == quoted_ident(name@),
{
    let n = name.unicode_len();
    let mut out = String::new();
    out.append("\"");
    proof {
        reveal_strlit("\"");
        reveal_strlit("\"\"");
        assert(name@.take(0) =~= Seq::<char>::empty());
    }
    let mut i: usize = 0;
    while i < n
        invariant
            n == name@.len(),
            i <= n,
            out@ =~= seq!['"'] + escape_quotes(name@.take(i as int)),
        decreases n - i,
    {
        let c = name.get_char(i);
        proof {
            reveal_strlit("\"\"");
        }
        assert(name@.take(i + 1).drop_last() =~= name@.take(i as int));
        if c == '"' {
            out.append("\"\"");
        } else {
            let piece = name.substring_char(i, i + 1);
            out.append(piece);
            assert(piece@ =~= seq![c]);
        }
        i = i + 1;
    }
    assert(name@.take(n as int) =~= name@);
    out.append("\"");
    out
}

/// Quoting never merges two names: distinct identifiers stay distinct once escaped.
pub proof fn lemma_escape_quotes_injective(a: Seq<char>, b: Seq<char>)
    requires
        escape_quotes(a) == escape_quotes(b),
    ensures
        a == b,
    decreases a.len() + b.len(),
{
    if a.len() == 0 || b.len() == 0 {
        if a.len() != 0 {
            assert(escape_quotes(a).len() > 0) by { lemma_escape_quotes_nonempty(a); }
        }
        if b.len() != 0 {
            assert(escape_quotes(b).len() > 0) by { lemma_escape_quotes_nonempty(b); }
        }
        assert(a =~= b);
    } else {
        let ea = escape_quotes(a);
        let eb = escape_quotes(b);
        if a.last() == '"' {
            if b.last() != '"' {
                assert(eb.last() == b.last());
                assert(false);
            }
            assert(ea.drop_last().drop_last() =~= escape_quotes(a.drop_last()));
            assert(eb.drop_last().drop_last() =~= escape_quotes(b.drop_last()));
            lemma_escape_quotes_injective(a.drop_last(), b.drop_last());
            assert(a.last() == b.last());
        } else {
            if b.last() == '"' {
                assert(ea.last() == a.last());
                assert(false);
            }
            assert(ea.drop_last() =~= escape_quotes(a.drop_last()));
            assert(eb.drop_last() =~= escape_quotes(b.drop_last()));
            assert(ea.last() == a.last());
            assert(eb.last() == b.last());
            lemma_escape_quotes_injective(a.drop_last(), b.drop_last());
        }
        assert(a =~= a.drop_last().push(a.last()));
        assert(b =~= b.drop_last().push(b.last()));
    }
}

proof fn lemma_escape_quotes_nonempty(s: Seq<char>)
    requires
        s.len() > 0,
    ensures
        escape_quotes(s).len() >= s.len(),
    decreases s.len(),
{
    if s.len() > 1 {
        lemma_escape_quotes_nonempty(s.drop_last());
    }
}

/// Two identifiers quote to the same SQL text only when they are the same identifier.
pub proof fn lemma_quoted_ident_injective(a: Seq<char>, b: Seq<char>)
    requires
        quoted_ident(a) == quoted_ident(b),
    ensures
        a == b,
{
    let qa = quoted_ident(a);
    let qb = quoted_ident(b);
    assert(qa.subrange(1, qa.len() - 1) =~= escape_quotes(a));
    assert(qb.subrange(1, qb.len() - 1) =~= escape_quotes(b));
    lemma_escape_quotes_injective(a, b);
}

/// Whether a view or relation kind denotes a materialized view (`m` in `pg_class.relkind`).
pub open spec fn is_matview_kind(kind: Seq<char>) -> bool {
    kind == seq!['m']
}

/// Tells whether `kind` is the relation kind of a materialized view.
pub fn is_matview(kind: &str) -> (matview: bool)
    ensures
        matview == is_matview_kind(kind@),
{
    let n = kind.unicode_len();
    if n == 1 {
        let c = kind.get_char(0);
        if c == 'm' {
            assert(kind@ =~= seq!['m']);
            true
        } else {
            false
        }
    } else {
        false
    }
}

/// Whether `c` has the Unicode `White_Space` property (PropList.txt), which is
/// what `char::is_whitespace` and `str::trim` go by.
pub open spec fn unicode_white_space(c: char) -> bool {
    ||| '\u{9}' <= c && c <= '\u{d}'
    ||| c == ' '
    ||| c == '\u{85}'
    ||| c == '\u{a0}'
    ||| c == '\u{1680}'
    ||| '\u{2000}' <= c && c <= '\u{200a}'
    ||| c == '\u{2028}'
    ||| c == '\u{2029}'
    ||| c == '\u{202f}'
    ||| c == '\u{205f}'
    ||| c == '\u{3000}'
}

/// Tells whether `c` has the Unicode `White_Space` property.
pub fn is_whitespace(c: char) -> (white: bool)
    ensures
        white == unicode_white_space(c),
{
    ('\u{9}' <= c && c <= '\u{d}') || c == ' ' || c == '\u{85}' || c == '\u{a0}' || c
        == '\u{1680}' || ('\u{2000}' <= c && c <= '\u{200a}') || c == '\u{2028}' || c
        == '\u{2029}' || c == '\u{202f}' || c == '\u{205f}' || c == '\u{3000}'
}

/// `s` without its leading whitespace.
pub open spec fn trim_start_chars(s: Seq<char>) -> Seq<char>
    decreases s.len(),
{
    if s.len() > 0 && unicode_white_space(s[0]) {
        trim_start_chars(s.drop_first())
    } else {
        s
    }
}

/// `s` without its trailing whitespace.
pub open spec fn trim_end_chars(s: Seq<char>) -> Seq<char>
    decreases s.len(),
{
    if s.len() > 0 && unicode_white_space(s.last()) {
        trim_end_chars(s.drop_last())
    } else {
        s
    }
}

/// `s` without its leading and trailing whitespace, as `str::trim` gives it.
pub open spec fn trim_chars(s: Seq<char>) -> Seq<char> {
    trim_end_chars(trim_start_chars(s))
}

proof fn lemma_trim_start_skip(s: Seq<char>, a: int)
    requires
        0 <= a <= s.len(),
        forall|k: int| 0 <= k < a ==> unicode_white_space(#[trigger] s[k]),
        a == s.len() || !unicode_white_space(s[a]),
    ensures
        trim_start_chars(s) == s.skip(a),
    decreases a,
{
    if a == 0 {
        assert(s.skip(0) =~= s);
    } else {
        let t = s.drop_first();
        assert forall|k: int| 0 <= k < a - 1 implies unicode_white_space(#[trigger] t[k]) by {
            assert(t[k] == s[k + 1]);
        }
        if a - 1 < t.len() {
            assert(t[a - 1] == s[a]);
        }
        lemma_trim_start_skip(t, a - 1);
        assert(t.skip(a - 1) =~= s.skip(a));
    }
}

proof fn lemma_trim_end_take(s: Seq<char>, b: int)
    requires
        0 <= b <= s.len(),
        forall|k: int| b <= k < s.len() ==> unicode_white_space(#[trigger] s[k]),
        b == 0 || !unicode_white_space(s[b - 1]),
    ensures
        trim_end_chars(s) == s.take(b),
    decreases s.len() - b,
{
    if b == s.len() {
        assert(s.take(b) =~= s);
    } else {
        let t = s.drop_last();
        assert forall|k: int| b <= k < t.len() implies unicode_white_space(#[trigger] t[k]) by {
            assert(t[k] == s[k]);
        }
        if b > 0 {
            assert(t[b - 1] == s[b - 1]);
        }
        lemma_trim_end_take(t, b);
        assert(t.take(b) =~= s.take(b));
    }
}

/// `s` with leading and trailing whitespace removed.
pub fn trim(s: &str) -> (trimmed: &str)
    ensures
        trimmed@ == trim_chars(s@),
{
    let n = s.unicode_len();
    let mut a: usize = 0;
    while a < n && is_whitespace(s.get_char(a))
        invariant
            n == s@.len(),
            a <= n,
            forall|k: int| 0 <= k < a ==> unicode_white_space(#[trigger] s@[k]),
        decreases n - a,
    {
        a = a + 1;
    }
    let mut b: usize = n;
    while b > a && is_whitespace(s.get_char(b - 1))
        invariant
            n == s@.len(),
            a <= b <= n,
            forall|k: int| b <= k < n ==> unicode_white_space(#[trigger] s@[k]),
        decreases b - a,
    {
        b = b - 1;
    }
    proof {
        lemma_trim_start_skip(s@, a as int);
        let t = s@.skip(a as int);
        assert forall|k: int| b - a <= k < t.len() implies unicode_white_space(#[trigger] t[k]) by {
            assert(t[k] == s@[k + a]);
        }
        if b > a {
            assert(t[b - a - 1] == s@[b - 1]);
        }
        lemma_trim_end_take(t, b - a);
        assert(t.take(b - a) =~= s@.subrange(a as int, b as int));
    }
    s.substring_char(a, b)
}

/// The code point of `c` after ASCII lowercasing, as `u8::to_ascii_lowercase` maps it.
pub open spec fn ascii_lowercase_code(c: char) -> int {
    if 'A' <= c && c <= 'Z' {
        c as int + 32
    } else {
        c as int
    }
}

/// The keyword that marks a whole CREATE statement.
pub open spec fn create_keyword() -> Seq<char> {
    seq!['c', 'r', 'e', 'a', 't', 'e']
}

/// Whether `s` begins with the keyword `create`, in any ASCII case.
pub open spec fn starts_with_create_keyword(s: Seq<char>) -> bool {
    &&& s.len() >= 6
    &&& forall|i: int|
        0 <= i < 6 ==> ascii_lowercase_code(#[trigger] s[i]) == create_keyword()[i] as int
}

/// Tells whether `s` begins with the keyword `create`, ignoring ASCII case.
/// The caller guarantees that its sixth byte, if it has one, starts a character.
pub fn starts_with_create(s: &str) -> (found: bool)
    requires
        vstd::utf8::encode_utf8(s@).len() < 6 || vstd::utf8::is_char_boundary(vstd::utf8::encode_utf8(s@), 6),
    ensures
        found == starts_with_create_keyword(s@),
{
    let n = s.unicode_len();
    if n < 6 {
        return false;
    }
    let lower = ['c', 'r', 'e', 'a', 't', 'e'];
    let upper = ['C', 'R', 'E', 'A', 'T', 'E'];
    let ghost keyword = create_keyword();
    assert forall|k: int|
        0 <= k < 6 implies 'a' <= #[trigger] keyword[k] && keyword[k] <= 'z' && upper@[k] as int
            == keyword[k] as int - 32 by {
        assert(keyword[0] == 'c' && upper@[0] == 'C');
        assert(keyword[1] == 'r' && upper@[1] == 'R');
        assert(keyword[2] == 'e' && upper@[2] == 'E');
        assert(keyword[3] == 'a' && upper@[3] == 'A');
        assert(keyword[4] == 't' && upper@[4] == 'T');
        assert(keyword[5] == 'e' && upper@[5] == 'E');
    }
    let mut i: usize = 0;
    while i < 6
        invariant
            n == s@.len(),
            n >= 6,
            i <= 6,
            keyword == create_keyword(),
            lower@ == keyword,
            forall|k: int|
                0 <= k < 6 ==> 'a' <= #[trigger] keyword[k] && keyword[k] <= 'z' && upper@[k] as int
                    == keyword[k] as int - 32,
            forall|k: int| 0 <= k < i ==> ascii_lowercase_code(#[trigger] s@[k]) == keyword[k] as int,
        decreases 6 - i,
    {
        let c = s.get_char(i);
        let lc = lower[i];
        let uc = upper[i];
        if c != lc && c != uc {
            assert(ascii_lowercase_code(s@[i as int]) != keyword[i as int] as int);
            assert(!starts_with_create_keyword(s@));
            return false;
        }
        i = i + 1;
    }
    true
}

/// The decimal digit `d`, the `d`-th character of `0123456789`.
pub open spec fn digit_char(d: int) -> char {
    "0123456789"@[d]
}

/// The decimal numeral of `n`, without leading zeros, as `Display` writes it.
pub open spec fn decimal(n: nat) -> Seq<char>
    decreases n,
{
    if n < 10 {
        seq![digit_char(n as int)]
    } else {
        decimal(n / 10).push(digit_char((n % 10) as int))
    }
}

/// The decimal numeral of `n`, with a minus sign when it is negative.
pub open spec fn signed_decimal(n: int) -> Seq<char> {
    if n < 0 {
        seq!['-'] + decimal((-n) as nat)
    } else {
        decimal(n as nat)
    }
}

/// Writes `n` in decimal.
pub fn decimal_u64(n: u64) -> (text: String)
    ensures
        text@ == decimal(n as nat),
    decreases n,
{
    let digits = "0123456789";
    proof {
        reveal_strlit("0123456789");
    }
    let mut text = if n < 10 {
        String::new()
    } else {
        decimal_u64(n / 10)
    };
    let d = (n % 10) as usize;
    let digit = digits.substring_char(d, d + 1);
    assert(digit@ =~= seq![digit_char(d as int)]);
    text.append(digit);
    text
}

/// Writes `n` in decimal, with a minus sign when it is negative.
pub fn decimal_i32(n: i32) -> (text: String)
    ensures
        text@ == signed_decimal(n as int),
{
    if n < 0 {
        let magnitude = (0 - (n as i64)) as u64;
        let mut text = String::from_str("-");
        let digits = decimal_u64(magnitude);
        text.append(digits.as_str());
        proof {
            reveal_strlit("-");
        }
        text
    } else {
        decimal_u64(n as u64)
    }
}

/// Whether a body is a CREATE statement is decided by its first six
/// characters alone: a shorter body never is one, bodies that agree on their
/// first six characters are decided alike, a body not starting with `c` or `C`
/// never is one, and one starting with `create` in lower or upper case always is.
pub proof fn lemma_create_check_reads_six_chars(s: Seq<char>, t: Seq<char>)
    ensures
        s.len() < 6 ==> !starts_with_create_keyword(s),
        s.len() >= 6 ==> starts_with_create_keyword(s) == starts_with_create_keyword(s.take(6)),
        s.len() >= 6 && t.len() >= 6 && s.take(6) == t.take(6) ==> starts_with_create_keyword(s)
            == starts_with_create_keyword(t),
        s.len() > 0 && s[0] != 'c' && s[0] != 'C' ==> !starts_with_create_keyword(s),
        starts_with_create_keyword(seq!['c', 'r', 'e', 'a', 't', 'e'] + t),
        starts_with_create_keyword(seq!['C', 'R', 'E', 'A', 'T', 'E'] + t),
{
    if s.len() >= 6 {
        let p = s.take(6);
        assert forall|i: int| 0 <= i < 6 implies p[i] == s[i] by {}
        assert(starts_with_create_keyword(s) == starts_with_create_keyword(p)) by {
            if starts_with_create_keyword(p) {
                assert forall|i: int| 0 <= i < 6 implies ascii_lowercase_code(#[trigger] s[i])
                    == create_keyword()[i] as int by {
                    assert(p[i] == s[i]);
                }
            }
            if starts_with_create_keyword(s) {
                assert forall|i: int| 0 <= i < 6 implies ascii_lowercase_code(#[trigger] p[i])
                    == create_keyword()[i] as int by {
                    assert(p[i] == s[i]);
                }
            }
        }
        if t.len() >= 6 && s.take(6) == t.take(6) {
            let q = t.take(6);
            assert(starts_with_create_keyword(t) == starts_with_create_keyword(q)) by {
                if starts_with_create_keyword(q) {
                    assert forall|i: int| 0 <= i < 6 implies ascii_lowercase_code(#[trigger] t[i])
                        == create_keyword()[i] as int by {
                        assert(q[i] == t[i]);
                    }
                }
                if starts_with_create_keyword(t) {
                    assert forall|i: int| 0 <= i < 6 implies ascii_lowercase_code(#[trigger] q[i])
                        == create_keyword()[i] as int by {
                        assert(q[i] == t[i]);
                    }
                }
            }
        }
    }
    if s.len() > 0 && s[0] != 'c' && s[0] != 'C' {
        assert(ascii_lowercase_code(s[0]) != create_keyword()[0] as int);
    }
    let lower = seq!['c', 'r', 'e', 'a', 't', 'e'] + t;
    assert forall|i: int| 0 <= i < 6 implies ascii_lowercase_code(#[trigger] lower[i])
        == create_keyword()[i] as int by {
        assert(lower[i] == create_keyword()[i]);
    }
    let upper = seq!['C', 'R', 'E', 'A', 'T', 'E'] + t;
    let up = seq!['C', 'R', 'E', 'A', 'T', 'E'];
    assert forall|i: int| 0 <= i < 6 implies ascii_lowercase_code(#[trigger] upper[i])
        == create_keyword()[i] as int by {
        assert(upper[i] == up[i]);
        assert(up[0] == 'C' && up[1] == 'R' && up[2] == 'E' && up[3] == 'A' && up[4] == 'T'
            && up[5] == 'E');
    }
}

} // verus!
