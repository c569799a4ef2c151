//! Calendar timestamps and the directory-name template language
//! (`%Y`, `%y`, `%m`, `%B`).
use vstd::prelude::*;

verus! {

/// A calendar date and wall-clock time of day.
#[derive(Clone, Copy, Debug, PartialEq, Eq, Structural)]
pub struct Timestamp {
    pub year: i32,
    pub month: u32,
    pub day: u32,
    pub hour: u32,
    pub minute: u32,
    pub second: u32,
}

impl Timestamp {
    /// Month, day and time of day lie in their calendar ranges.
    pub open spec fn wf(&self) -> bool {
        &&& 1 <= self.month <= 12
        &&& 1 <= self.day <= 31
        &&& self.hour < 24
        &&& self.minute < 60
        &&& self.second < 60
    }
}

/// The German name of month `m` (1 = January).
pub open spec fn german_month_name(m: u32) -> Seq<char> {
    if m == 1 {
        "Januar"@
    } else if m == 2 {
        "Februar"@
    } else if m == 3 {
        "März"@
    } else if m == 4 {
        "April"@
    } else if m == 5 {
        "Mai"@
    } else if m == 6 {
        "Juni"@
    } else if m == 7 {
        "Juli"@
    } else if m == 8 {
        "August"@
    } else if m == 9 {
        "September"@
    } else if m == 10 {
        "Oktober"@
    } else if m == 11 {
        "November"@
    } else {
        "Dezember"@
    }
}

/// The character of decimal digit `d`.
pub open spec fn digit_char(d: nat) -> char {
    "0123456789"@[d as int]
}

/// The decimal digits of `n`, without leading zeros.
pub open spec fn decimal(n: nat) -> Seq<char>
    decreases n,
{
    if n < 10 {
        seq![digit_char(n)]
    } else {
        decimal(n / 10).push(digit_char(n % 10))
    }
}

/// The decimal digits of `n`, with leading zeros up to `width` characters.
pub open spec fn zero_padded(n: nat, width: nat) -> Seq<char> {
    let d = decimal(n);
    if d.len() >= width {
        d
    } else {
        Seq::new((width - d.len()) as nat, |i: int| '0') + d
    }
}

/// `%Y`: the year padded to four digits; outside 0..=9999 it carries a sign.
pub open spec fn year_text(y: int) -> Seq<char> {
    if 0 <= y <= 9999 {
        zero_padded(y as nat, 4)
    } else if y < 0 {
        seq!['-'] + zero_padded((-y) as nat, 4)
    } else {
        seq!['+'] + zero_padded(y as nat, 4)
    }
}

/// What the token `%c` stands for on `t`, or `None` when `%c` is no token.
pub open spec fn token_text(t: Timestamp, c: char) -> Option<Seq<char>> {
    if c == 'Y' {
        Some(year_text(t.year as int))
    } else if c == 'y' {
        Some(zero_padded((t.year as int % 100) as nat, 2))
    } else if c == 'm' {
        Some(zero_padded(t.month as nat, 2))
    } else if c == 'B' {
        Some(german_month_name(t.month))
    } else {
        None
    }
}

/// The template `s` with every token replaced by its text for `t`; every
/// other character is kept as it stands.
pub open spec fn interpolated(t: Timestamp, s: Seq<char>) -> Seq<char>
    decreases s.len(),
{
    if s.len() == 0 {
        seq![]
    } else if s.len() >= 2 && s[0] == '%' && token_text(t, s[1]) is Some {
        token_text(t, s[1])->0 + interpolated(t, s.subrange(2, s.len() as int))
    } else {
        seq![s[0]] + interpolated(t, s.subrange(1, s.len() as int))
    }
}

/// The German name of a month, 1 being January.
pub fn get_german_month_name(month: u32) -> (r: String)
    requires
        1 <= month <= 12,
    ensures
        r@ == german_month_name(month),
{
    if month == 1 {
        String::from_str("Januar")
    } else if month == 2 {
        String::from_str("Februar")
    } else if month == 3 {
        String::from_str("März")
    } else if month == 4 {
        String::from_str("April")
    } else if month == 5 {
        String::from_str("Mai")
    } else if month == 6 {
        String::from_str("Juni")
    } else if month == 7 {
        String::from_str("Juli")
    } else if month == 8 {
        String::from_str("August")
    } else if month == 9 {
        String::from_str("September")
    } else if month == 10 {
        String::from_str("Oktober")
    } else if month == 11 {
        String::from_str("November")
    } else {
        String::from_str("Dezember")
    }
}

proof fn lemma_decimal_len(n: nat)
    ensures
        n < 10 ==> decimal(n).len() == 1,
        10 <= n < 100 ==> decimal(n).len() == 2,
        100 <= n < 1000 ==> decimal(n).len() == 3,
        1000 <= n ==> decimal(n).len() >= 4,
    decreases n,
{
    if n >= 10 {
        lemma_decimal_len(n / 10);
    }
}

fn append_decimal(out: &mut String, n: u32)
    ensures
        final(out)@ == old(out)@ + decimal(n as nat),
    decreases n,
{
    proof {
        reveal_strlit("0123456789");
    }
    if n >= 10 {
        append_decimal(out, n / 10);
    }
    let d = (n % 10) as usize;
    out.append("0123456789".substring_char(d, d + 1));
    proof {
        assert("0123456789"@.subrange(d as int, d + 1) =~= seq![digit_char(d as nat)]);
    }
}

fn append_zero_padded(out: &mut String, n: u32, width: usize)
    requires
        width <= 4,
    ensures
        final(out)@ == old(out)@ + zero_padded(n as nat, width as nat),
{
    proof {
        reveal_strlit("0");
        lemma_decimal_len(n as nat);
    }
    let digits: usize = if n < 10 {
        1
    } else if n < 100 {
        2
    } else if n < 1000 {
        3
    } else {
        4
    };
    let ghost start = out@;
    let mut k: usize = digits;
    while k < width
        invariant
            digits <= k,
            k <= width || k == digits,
            width <= 4,
            out@ == start + Seq::new((k - digits) as nat, |i: int| '0'),
        decreases width - k,
    {
        out.append("0");
        k = k + 1;
        proof {
            reveal_strlit("0");
            assert(out@ =~= start + Seq::new((k - digits) as nat, |i: int| '0'));
        }
    }
    append_decimal(out, n);
    proof {
        let d = decimal(n as nat);
        if d.len() >= width {
            assert(k == digits);
            assert(out@ =~= old(out)@ + zero_padded(n as nat, width as nat));
        } else {
            assert(d.len() == digits);
            assert(out@ =~= old(out)@ + zero_padded(n as nat, width as nat));
        }
    }
}

fn append_year(out: &mut String, y: i32)
    ensures
        final(out)@ == old(out)@ + year_text(y as int),
{
    proof {
        reveal_strlit("-");
        reveal_strlit("+");
    }
    if 0 <= y && y <= 9999 {
        append_zero_padded(out, y as u32, 4);
    } else if y < 0 {
        out.append("-");
        let a: u32 = (-(y as i64)) as u32;
        append_zero_padded(out, a, 4);
        assert(out@ =~= old(out)@ + year_text(y as int));
    } else {
        out.append("+");
        append_zero_padded(out, y as u32, 4);
        assert(out@ =~= old(out)@ + year_text(y as int));
    }
}

fn append_short_year(out: &mut String, y: i32)
    ensures
        final(out)@ == old(out)@ + zero_padded((y as int % 100) as nat, 2),
{
    let shifted: u64 = (y as i64 + 2_200_000_000) as u64;
    let r: u32 = (shifted % 100) as u32;
    proof {
        vstd::arithmetic::div_mod::lemma_mod_multiples_vanish(22_000_000, y as int, 100);
        assert(r as int == y as int % 100);
    }
    append_zero_padded(out, r, 2);
}

/// Fills the template `format` for `date`: `%Y` becomes the four-digit year,
/// `%y` the year's last two digits, `%m` the two-digit month and `%B` the
/// German month name; all other text is kept.
pub fn interpolate_date_format(date: Timestamp, format: &str) -> (r: String)
    requires
        date.wf(),
    ensures
        r@ == interpolated(date, format@),
{
    let n = format.unicode_len();
    let mut out = String::new();
    let mut i: usize = 0;
    proof {
        assert(format@.subrange(0, n as int) =~= format@);
        assert(out@ + interpolated(date, format@) =~= interpolated(date, format@));
    }
    while i < n
        invariant
            n == format@.len(),
            i <= n,
            date.wf(),
            out@ + interpolated(date, format@.subrange(i as int, n as int)) == interpolated(
                date,
                format@,
            ),
        decreases n - i,
    {
        let ghost before = out@;
        let ghost rest = format@.subrange(i as int, n as int);
        let c = format.get_char(i);
        let mut token = false;
        if c == '%' && i + 1 < n {
            let t = format.get_char(i + 1);
            if t == 'Y' {
                append_year(&mut out, date.year);
                token = true;
            } else if t == 'y' {
                append_short_year(&mut out, date.year);
                token = true;
            } else if t == 'm' {
                append_zero_padded(&mut out, date.month, 2);
                token = true;
            } else if t == 'B' {
                let name = get_german_month_name(date.month);
                out.append(name.as_str());
                token = true;
            }
        }
        if token {
            proof {
                assert(rest.subrange(2, rest.len() as int) =~= format@.subrange(i + 2, n as int));
                assert(out@ == before + token_text(date, rest[1])->0);
                assert(out@ + interpolated(date, format@.subrange(i + 2, n as int)) =~= before
                    + interpolated(date, rest));
            }
            i = i + 2;
        } else {
            out.append(format.substring_char(i, i + 1));
            proof {
                assert(rest.subrange(1, rest.len() as int) =~= format@.subrange(i + 1, n as int));
                assert(out@ + interpolated(date, format@.subrange(i + 1, n as int)) =~= before
                    + interpolated(date, rest));
            }
            i = i + 1;
        }
    }
    proof {
        assert(format@.subrange(n as int, n as int) =~= Seq::<char>::empty());
        assert(out@ =~= interpolated(date, format@));
    }
    out
}

/// Text without `%` passes through a template unchanged: a literal prefix
/// comes out verbatim, in front of what the rest of the template gives.
pub proof fn lemma_literal_text_kept(t: Timestamp, literal: Seq<char>, rest: Seq<char>)
    requires
        forall|i: int| 0 <= i < literal.len() ==> literal[i] != '%',
    ensures
        interpolated(t, literal + rest) == literal + interpolated(t, rest),
    decreases literal.len(),
{
    if literal.len() > 0 {
        let s = literal + rest;
        let tail = literal.subrange(1, literal.len() as int);
        assert(s.subrange(1, s.len() as int) =~= tail + rest);
        lemma_literal_text_kept(t, tail, rest);
        assert(literal =~= seq![literal[0]] + tail);
        assert(interpolated(t, s) =~= literal + interpolated(t, rest));
    } else {
        assert(literal + rest =~= rest);
    }
}

/// The characters that follow `%` in a token.
pub open spec fn is_token_char(c: char) -> bool {
    c == 'Y' || c == 'y' || c == 'm' || c == 'B'
}

/// Text in which no `%` occurs.
pub open spec fn is_literal(s: Seq<char>) -> bool {
    forall|i: int| 0 <= i < s.len() ==> s[i] != '%'
}

/// The template `literals[0]`, `%` and `tokens[0]`, `literals[1]`, and so on,
/// ending with the last literal segment.
pub open spec fn assembled(literals: Seq<Seq<char>>, tokens: Seq<char>) -> Seq<char>
    decreases tokens.len(),
{
    if literals.len() == 0 {
        seq![]
    } else if tokens.len() == 0 {
        literals[0]
    } else {
        literals[0] + seq!['%', tokens[0]] + assembled(literals.drop_first(), tokens.drop_first())
    }
}

/// The same sequence with the text of each token for `t` in its place.
pub open spec fn filled(t: Timestamp, literals: Seq<Seq<char>>, tokens: Seq<char>) -> Seq<char>
    decreases tokens.len(),
{
    if literals.len() == 0 {
        seq![]
    } else if tokens.len() == 0 {
        literals[0]
    } else {
        literals[0] + token_text(t, tokens[0])->0 + filled(
            t,
            literals.drop_first(),
            tokens.drop_first(),
        )
    }
}

/// A template made of literal segments without `%` and of the tokens `%Y`,
/// `%y`, `%m` and `%B` comes out as its literal segments, verbatim and in
/// order, with each token's text between them.
pub proof fn lemma_template_filled(t: Timestamp, literals: Seq<Seq<char>>, tokens: Seq<char>)
    requires
        literals.len() == tokens.len() + 1,
        forall|i: int| 0 <= i < literals.len() ==> is_literal(#[trigger] literals[i]),
        forall|j: int| 0 <= j < tokens.len() ==> is_token_char(#[trigger] tokens[j]),
    ensures
        interpolated(t, assembled(literals, tokens)) == filled(t, literals, tokens),
    decreases tokens.len(),
{
    assert(is_literal(literals[0]));
    if tokens.len() == 0 {
        lemma_literal_text_kept(t, literals[0], seq![]);
        assert(literals[0] + Seq::<char>::empty() =~= literals[0]);
        assert(interpolated(t, Seq::<char>::empty()) =~= Seq::<char>::empty());
    } else {
        let lits = literals.drop_first();
        let toks = tokens.drop_first();
        assert forall|i: int| 0 <= i < lits.len() implies is_literal(#[trigger] lits[i]) by {
            assert(lits[i] == literals[i + 1]);
        }
        assert forall|j: int| 0 <= j < toks.len() implies is_token_char(#[trigger] toks[j]) by {
            assert(toks[j] == tokens[j + 1]);
        }
        lemma_template_filled(t, lits, toks);
        let rest = assembled(lits, toks);
        let s = seq!['%', tokens[0]] + rest;
        assert(is_token_char(tokens[0]));
        assert(s.subrange(2, s.len() as int) =~= rest);
        assert(interpolated(t, s) == token_text(t, tokens[0])->0 + interpolated(t, rest));
        lemma_literal_text_kept(t, literals[0], s);
        assert(assembled(literals, tokens) =~= literals[0] + s);
        assert(filled(t, literals, tokens) =~= literals[0] + (token_text(t, tokens[0])->0
            + filled(t, lits, toks)));
    }
}

} // verus!
