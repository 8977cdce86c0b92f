//! Text as sequences of characters: building, splitting, numbers and order.

use vstd::prelude::*;

verus! {

/// `String::push` appends one character to the end of the text.
pub assume_specification[ String::push ](s: &mut String, ch: char)
    ensures
        final(s)@ == old(s)@.push(ch),
;

/// The decimal digit for `d`, which is below ten.
pub open spec fn digit_char(d: nat) -> char {
    ('0' as nat + d) as char
}

/// `n` written in decimal, without leading zeros.
pub open spec fn decimal(n: nat) -> Seq<char>
    decreases n,
{
    if n < 10 {
        seq![digit_char(n)]
    } else {
        decimal(n / 10).push(digit_char(n % 10))
    }
}

pub open spec fn is_digit(c: char) -> bool {
    '0' <= c <= '9'
}

pub open spec fn all_digits(s: Seq<char>) -> bool {
    forall|i: int| 0 <= i < s.len() ==> is_digit(#[trigger] s[i])
}

/// The number that a run of decimal digits spells.
pub open spec fn digits_value(s: Seq<char>) -> nat
    decreases s.len(),
{
    if s.len() == 0 {
        0
    } else {
        (digits_value(s.drop_last()) * 10 + (s.last() as nat - '0' as nat)) as nat
    }
}

/// The text after an optional leading sign `sign`.
pub open spec fn without_sign(s: Seq<char>, sign: char) -> Seq<char> {
    if s.len() > 0 && s[0] == sign {
        s.skip(1)
    } else {
        s
    }
}

/// What an unsigned decimal number with an optional `+` spells, where it is at
/// most `max`.
pub open spec fn unsigned_value(s: Seq<char>, max: nat) -> Option<nat> {
    let d = without_sign(s, '+');
    if d.len() > 0 && all_digits(d) && digits_value(d) <= max {
        Some(digits_value(d))
    } else {
        None
    }
}

/// Why a text is no unsigned number.
#[derive(Debug, Clone, Copy, PartialEq, Eq, Structural)]
pub enum NumberError {
    Empty,
    InvalidDigit,
    TooLarge,
}

/// Whether the digits of `d`, read from the left, grow too large before
/// anything else is met.
pub open spec fn grows_too_large(d: Seq<char>, max: nat) -> bool {
    exists|n: int| 0 < n <= d.len() && all_digits(#[trigger] d.take(n)) && digits_value(d.take(n)) > max
}

/// Whether something else than a digit is met in `d`, read from the left,
/// before the digits grow too large.
pub open spec fn meets_another(d: Seq<char>, max: nat) -> bool {
    exists|n: int|
        0 <= n < d.len() && all_digits(#[trigger] d.take(n)) && digits_value(d.take(n)) <= max
            && !is_digit(d[n])
}

/// Whether `e` is what keeps a text from being an unsigned number of at most
/// `max`.
pub open spec fn is_number_error(s: Seq<char>, max: nat, e: NumberError) -> bool {
    let d = without_sign(s, '+');
    match e {
        NumberError::Empty => s.len() == 0,
        NumberError::InvalidDigit => s.len() > 0 && (d.len() == 0 || meets_another(d, max)),
        NumberError::TooLarge => grows_too_large(d, max),
    }
}

/// A text is no number for one reason only, and a number for none.
pub proof fn number_errors_exclude_each_other(s: Seq<char>, max: nat, a: NumberError, b: NumberError)
    requires
        is_number_error(s, max, a),
    ensures
        unsigned_value(s, max) is None,
        is_number_error(s, max, b) ==> a == b,
{
    let d = without_sign(s, '+');
    if grows_too_large(d, max) {
        let n = choose|n: int|
            0 < n <= d.len() && all_digits(#[trigger] d.take(n)) && digits_value(d.take(n)) > max;
        if meets_another(d, max) {
            let m = choose|m: int|
                0 <= m < d.len() && all_digits(#[trigger] d.take(m)) && digits_value(d.take(m))
                    <= max && !is_digit(d[m]);
            if m < n {
                assert(d.take(n)[m] == d[m]);
            } else {
                lemma_digits_value_monotone(d.take(m), n);
                assert(d.take(m).take(n) == d.take(n));
            }
        }
        if all_digits(d) {
            lemma_digits_value_monotone(d, n);
        }
    }
}

impl NumberError {
    pub open spec fn text(self) -> Seq<char> {
        match self {
            NumberError::Empty => "cannot parse integer from empty string"@,
            NumberError::InvalidDigit => "invalid digit found in string"@,
            NumberError::TooLarge => "number too large to fit in target type"@,
        }
    }

    /// What is said of it.
    pub fn message(self) -> (s: String)
        ensures
            s@ == self.text(),
    {
        match self {
            NumberError::Empty => "cannot parse integer from empty string".to_owned(),
            NumberError::InvalidDigit => "invalid digit found in string".to_owned(),
            NumberError::TooLarge => "number too large to fit in target type".to_owned(),
        }
    }
}

/// What a signed decimal number with an optional `+` or `-` spells, where its
/// magnitude fits an `i32`.
pub open spec fn signed_value(s: Seq<char>) -> Option<int> {
    if s.len() > 0 && s[0] == '-' {
        let d = s.skip(1);
        if d.len() > 0 && all_digits(d) && digits_value(d) <= 0x8000_0000 {
            Some(-(digits_value(d) as int))
        } else {
            None
        }
    } else {
        match unsigned_value(s, 0x7fff_ffff) {
            Some(v) => Some(v as int),
            None => None,
        }
    }
}

/// The pieces of `s` between the occurrences of `sep`: one more than there are
/// occurrences.
pub open spec fn split_at_char(s: Seq<char>, sep: char) -> Seq<Seq<char>>
    decreases s.len(),
{
    if s.len() == 0 {
        seq![Seq::<char>::empty()]
    } else {
        let rest = split_at_char(s.drop_last(), sep);
        if s.last() == sep {
            rest.push(Seq::<char>::empty())
        } else {
            rest.drop_last().push(rest.last().push(s.last()))
        }
    }
}

/// The texts of a vector of strings.
pub open spec fn texts(v: Seq<String>) -> Seq<Seq<char>> {
    v.map_values(|s: String| s@)
}

/// The text of a string that need not be there.
pub open spec fn text_of_option(s: Option<String>) -> Option<Seq<char>> {
    match s {
        Some(t) => Some(t@),
        None => None,
    }
}

/// The names, with `sep` between each two.
pub open spec fn separated(names: Seq<Seq<char>>, sep: Seq<char>) -> Seq<char>
    decreases names.len(),
{
    if names.len() == 0 {
        Seq::empty()
    } else if names.len() == 1 {
        names[0]
    } else {
        separated(names.drop_last(), sep) + sep + names.last()
    }
}

/// Lexicographic order by code point, which for UTF-8 is the order of the
/// encoded bytes.
pub open spec fn text_le(a: Seq<char>, b: Seq<char>) -> bool
    decreases a.len(),
{
    if a.len() == 0 {
        true
    } else if b.len() == 0 {
        false
    } else if a[0] != b[0] {
        a[0] < b[0]
    } else {
        text_le(a.skip(1), b.skip(1))
    }
}

/// The characters of `s`.
pub fn chars_of(s: &str) -> (v: Vec<char>)
    ensures
        v@ == s@,
{
    let mut v: Vec<char> = Vec::new();
    for c in it: s.chars()
        invariant
            v@ == it.seq().take(it.index()),
            it.seq() == s@,
    {
        v.push(c);
    }
    v
}

/// The text made of `chars`.
pub fn text_of(chars: &Vec<char>) -> (s: String)
    ensures
        s@ == chars@,
{
    let mut s = String::new();
    let mut i: usize = 0;
    while i < chars.len()
        invariant
            i <= chars.len(),
            s@ == chars@.take(i as int),
        decreases chars.len() - i,
    {
        s.push(chars[i]);
        i = i + 1;
        assert(chars@.take(i as int) == chars@.take(i - 1).push(chars@[i - 1]));
    }
    assert(chars@.take(chars@.len() as int) == chars@);
    s
}

/// Whether two texts are the same.
pub fn same_text(a: &str, b: &str) -> (r: bool)
    ensures
        r == (a@ == b@),
{
    a.to_owned() == b.to_owned()
}

/// Writes the names one after the other, with `sep` between each two.
pub fn separate(names: &Vec<String>, sep: &str) -> (s: String)
    ensures
        s@ == separated(texts(names@), sep@),
{
    let ghost all = texts(names@);
    let mut s = String::new();
    let mut i: usize = 0;
    assert(all.take(0) == Seq::<Seq<char>>::empty());
    while i < names.len()
        invariant
            i <= names.len(),
            all == texts(names@),
            s@ == separated(all.take(i as int), sep@),
        decreases names.len() - i,
    {
        let ghost before = s@;
        if i > 0 {
            s.append(sep);
        }
        s.append(names[i].as_str());
        assert(all.take(i + 1).drop_last() == all.take(i as int));
        assert(all.take(i + 1).last() == names@[i as int]@);
        i = i + 1;
    }
    assert(all.take(i as int) == all);
    s
}

/// One text after another.
pub fn join2(a: &str, b: &str) -> (s: String)
    ensures
        s@ == a@ + b@,
{
    let mut s = a.to_owned();
    s.append(b);
    s
}

/// Three texts after each other.
pub fn join3(a: &str, b: &str, c: &str) -> (s: String)
    ensures
        s@ == a@ + b@ + c@,
{
    let mut s = a.to_owned();
    s.append(b);
    s.append(c);
    s
}

/// `n` in decimal.
pub fn wide_decimal_text(n: u128) -> (s: String)
    ensures
        s@ == decimal(n as nat),
    decreases n,
{
    if n < 10 {
        let mut s = String::new();
        s.push((48u8 + n as u8) as char);
        assert(s@ == decimal(n as nat));
        s
    } else {
        let mut s = wide_decimal_text(n / 10);
        s.push((48u8 + (n % 10) as u8) as char);
        s
    }
}

/// `n` in decimal.
pub fn decimal_text(n: u64) -> (s: String)
    ensures
        s@ == decimal(n as nat),
{
    wide_decimal_text(n as u128)
}

/// The digits after a decimal point, without trailing zeros: `part` counted in
/// units of which the first digit is worth `scale`.
pub open spec fn fraction_digits(part: nat, scale: nat) -> Seq<char>
    decreases scale,
{
    if part == 0 || scale == 0 {
        Seq::empty()
    } else {
        seq![digit_char(part / scale)] + fraction_digits(part % scale, scale / 10)
    }
}

/// A whole number of units and, after a point, what is left of them.
pub open spec fn decimal_fraction(n: nat, unit: nat) -> Seq<char> {
    decimal(n / unit) + if n % unit == 0 {
        Seq::empty()
    } else {
        seq!['.'] + fraction_digits(n % unit, unit / 10)
    }
}

/// A time in nanoseconds, in the largest unit of which there is at least one.
pub open spec fn exact_duration(nanos: nat) -> Seq<char> {
    if nanos >= 1_000_000_000 {
        decimal_fraction(nanos, 1_000_000_000) + "s"@
    } else if nanos >= 1_000_000 {
        decimal_fraction(nanos, 1_000_000) + "ms"@
    } else if nanos >= 1_000 {
        decimal_fraction(nanos, 1_000) + "\u{b5}s"@
    } else {
        decimal(nanos) + "ns"@
    }
}

/// A power of ten, or nothing.
spec fn is_scale(n: nat) -> bool
    decreases n,
{
    n <= 1 || (n % 10 == 0 && is_scale(n / 10))
}

fn push_fraction(s: &mut String, n: u128, unit: u128)
    requires
        unit >= 10,
        is_scale(unit as nat),
    ensures
        final(s)@ == old(s)@ + decimal_fraction(n as nat, unit as nat),
{
    s.append(wide_decimal_text(n / unit).as_str());
    let mut part: u128 = n % unit;
    if part == 0 {
        return;
    }
    s.push('.');
    let mut scale: u128 = unit / 10;
    let ghost before = s@;
    let ghost all = fraction_digits(part as nat, scale as nat);
    assert(before + all == old(s)@ + decimal_fraction(n as nat, unit as nat));
    while part > 0 && scale > 0
        invariant
            is_scale(scale as nat),
            scale > 0 ==> part < 10 * scale,
            s@ + fraction_digits(part as nat, scale as nat) == before + all,
        decreases scale,
    {
        let ghost so_far = s@;
        let ghost rest = fraction_digits((part % scale) as nat, (scale / 10) as nat);
        assert(part / scale < 10) by (nonlinear_arith)
            requires
                part < 10 * scale,
                scale > 0,
        ;
        s.push((48u8 + (part / scale) as u8) as char);
        assert(s@ + rest == so_far + (seq![digit_char((part / scale) as nat)] + rest));
        part = part % scale;
        scale = scale / 10;
    }
    assert(fraction_digits(part as nat, scale as nat) == Seq::<char>::empty());
    assert(s@ == s@ + fraction_digits(part as nat, scale as nat));
}

/// A time in nanoseconds, written as std writes a `Duration` for debugging.
pub fn exact_duration_text(nanos: u128) -> (s: String)
    ensures
        s@ == exact_duration(nanos as nat),
{
    proof {
        reveal_with_fuel(is_scale, 10);
    }
    let mut s = String::new();
    if nanos >= 1_000_000_000 {
        push_fraction(&mut s, nanos, 1_000_000_000);
        s.append("s");
    } else if nanos >= 1_000_000 {
        push_fraction(&mut s, nanos, 1_000_000);
        s.append("ms");
    } else if nanos >= 1_000 {
        push_fraction(&mut s, nanos, 1_000);
        s.append("\u{b5}s");
    } else {
        s.append(wide_decimal_text(nanos).as_str());
        s.append("ns");
    }
    s
}

proof fn lemma_digits_value_monotone(s: Seq<char>, i: int)
    requires
        all_digits(s),
        0 <= i <= s.len(),
    ensures
        digits_value(s.take(i)) <= digits_value(s),
    decreases s.len() - i,
{
    if i < s.len() {
        lemma_digits_value_monotone(s, i + 1);
        assert(s.take(i + 1).drop_last() == s.take(i));
        assert(is_digit(s[i]));
    } else {
        assert(s.take(i) == s);
    }
}

/// The value of the digits from `from` on, where there are any, all of them are
/// digits and the value is at most `max`.
fn digits_from(v: &Vec<char>, from: usize, max: u64) -> (r: Result<u64, NumberError>)
    requires
        from <= v.len(),
    ensures
        ({
            let d = v@.skip(from as int);
            match r {
                Ok(n) => d.len() > 0 && all_digits(d) && digits_value(d) <= max && n
                    == digits_value(d),
                Err(NumberError::Empty) => d.len() == 0,
                Err(NumberError::InvalidDigit) => meets_another(d, max as nat),
                Err(NumberError::TooLarge) => grows_too_large(d, max as nat),
            }
        }),
{
    let ghost d = v@.skip(from as int);
    if from >= v.len() {
        return Err(NumberError::Empty);
    }
    let mut value: u64 = 0;
    let mut i: usize = from;
    while i < v.len()
        invariant
            from <= i <= v.len(),
            d == v@.skip(from as int),
            all_digits(d.take(i - from)),
            value == digits_value(d.take(i - from)),
            value <= max,
        decreases v.len() - i,
    {
        let c: char = v[i];
        assert(d[i - from] == c);
        if c < '0' || c > '9' {
            assert(!is_digit(d[i - from]));
            return Err(NumberError::InvalidDigit);
        }
        let ghost next = d.take(i + 1 - from);
        assert(next.drop_last() == d.take(i - from));
        assert(next.last() == c);
        proof {
            assert forall|k: int| 0 <= k < next.len() implies is_digit(#[trigger] next[k]) by {
                if k < i - from {
                    assert(next[k] == d.take(i - from)[k]);
                }
            }
        }
        let digit: u64 = (c as u32 - '0' as u32) as u64;
        assert(digits_value(next) == value * 10 + digit);
        if value > (u64::MAX - digit) / 10 || value * 10 + digit > max {
            assert(digits_value(next) > max);
            return Err(NumberError::TooLarge);
        }
        value = value * 10 + digit;
        i = i + 1;
    }
    assert(d.take(v.len() - from) == d);
    Ok(value)
}

/// Reads `s` as `str::parse` reads an unsigned number of at most `max`.
pub fn read_unsigned(s: &str, max: u64) -> (r: Result<u64, NumberError>)
    ensures
        match r {
            Ok(v) => unsigned_value(s@, max as nat) == Some(v as nat),
            Err(e) => is_number_error(s@, max as nat, e),
        },
{
    let v = chars_of(s);
    if v.len() > 0 && v[0] == '+' {
        match digits_from(&v, 1, max) {
            Err(NumberError::Empty) => Err(NumberError::InvalidDigit),
            other => other,
        }
    } else {
        assert(v@.skip(0) == v@);
        digits_from(&v, 0, max)
    }
}

/// Reads `s` as `str::parse` reads an unsigned number of at most `max`, where it
/// is one.
pub fn parse_unsigned(s: &str, max: u64) -> (r: Option<u64>)
    ensures
        match unsigned_value(s@, max as nat) {
            Some(v) => r == Some(v as u64),
            None => r == None::<u64>,
        },
{
    match read_unsigned(s, max) {
        Ok(v) => Some(v),
        Err(e) => {
            proof {
                number_errors_exclude_each_other(s@, max as nat, e, e);
            }
            None
        },
    }
}

/// Reads `s` as `str::parse` reads a `u64`.
pub fn parse_u64(s: &str) -> (r: Option<u64>)
    ensures
        match unsigned_value(s@, u64::MAX as nat) {
            Some(v) => r == Some(v as u64),
            None => r == None::<u64>,
        },
{
    parse_unsigned(s, u64::MAX)
}

/// Reads `s` as `str::parse` reads a `u16`.
pub fn parse_u16(s: &str) -> (r: Result<u16, NumberError>)
    ensures
        match r {
            Ok(v) => unsigned_value(s@, u16::MAX as nat) == Some(v as nat),
            Err(e) => unsigned_value(s@, u16::MAX as nat) is None && is_number_error(
                s@,
                u16::MAX as nat,
                e,
            ),
        },
{
    match read_unsigned(s, 0xffff) {
        Ok(v) => Ok(v as u16),
        Err(e) => {
            proof {
                number_errors_exclude_each_other(s@, u16::MAX as nat, e, e);
            }
            Err(e)
        },
    }
}

/// Reads `s` as `str::parse` reads an `i32`.
pub fn parse_i32(s: &str) -> (r: Option<i32>)
    ensures
        match signed_value(s@) {
            Some(v) => r == Some(v as i32),
            None => r == None::<i32>,
        },
{
    let v = chars_of(s);
    if v.len() > 0 && v[0] == '-' {
        match digits_from(&v, 1, 0x8000_0000) {
            Ok(m) => Some((0 - m as i64) as i32),
            Err(e) => {
                proof {
                    let d = v@.skip(1);
                    if d.len() > 0 && d[0] != '+' {
                        number_errors_exclude_each_other(d, 0x8000_0000, e, e);
                    } else if d.len() > 0 {
                        assert(!is_digit(d[0]));
                    }
                }
                None
            },
        }
    } else {
        match parse_unsigned(s, 0x7fff_ffff) {
            Some(m) => Some(m as i32),
            None => None,
        }
    }
}

proof fn lemma_split_nonempty(s: Seq<char>, sep: char)
    ensures
        split_at_char(s, sep).len() > 0,
    decreases s.len(),
{
    if s.len() > 0 {
        lemma_split_nonempty(s.drop_last(), sep);
    }
}

/// Splits `s` at each `sep`, as `str::split` does.
pub fn split_text(s: &str, sep: char) -> (parts: Vec<String>)
    ensures
        texts(parts@) == split_at_char(s@, sep),
        parts.len() > 0,
{
    let v = chars_of(s);
    let mut parts: Vec<String> = Vec::new();
    let mut last = String::new();
    let mut i: usize = 0;
    assert(v@.take(0) == Seq::<char>::empty());
    assert(texts(parts@).push(last@) == split_at_char(v@.take(0), sep));
    while i < v.len()
        invariant
            i <= v.len(),
            texts(parts@).push(last@) == split_at_char(v@.take(i as int), sep),
        decreases v.len() - i,
    {
        let c: char = v[i];
        let ghost before = split_at_char(v@.take(i as int), sep);
        assert(v@.take(i + 1).drop_last() == v@.take(i as int));
        assert(v@.take(i + 1).last() == c);
        assert(before.drop_last() == texts(parts@));
        assert(before.last() == last@);
        if c == sep {
            let ghost old_parts = parts@;
            let ghost old_last = last@;
            parts.push(last);
            assert(texts(parts@) == texts(old_parts).push(old_last));
            last = String::new();
            assert(texts(parts@).push(last@) == before.push(Seq::<char>::empty()));
        } else {
            last.push(c);
        }
        i = i + 1;
    }
    assert(v@.take(v.len() as int) == v@);
    let ghost old_parts = parts@;
    let ghost old_last = last@;
    parts.push(last);
    assert(texts(parts@) == texts(old_parts).push(old_last));
    parts
}

/// Whether `a` comes no later than `b` in byte order.
pub fn text_not_after(a: &str, b: &str) -> (r: bool)
    ensures
        r == text_le(a@, b@),
{
    let x = chars_of(a);
    let y = chars_of(b);
    let mut i: usize = 0;
    assert(x@.skip(0) == x@);
    assert(y@.skip(0) == y@);
    while i < x.len() && i < y.len() && x[i] == y[i]
        invariant
            i <= x.len(),
            i <= y.len(),
            x@ == a@,
            y@ == b@,
            text_le(a@, b@) == text_le(x@.skip(i as int), y@.skip(i as int)),
        decreases x.len() - i,
    {
        assert(x@.skip(i as int).skip(1) == x@.skip(i + 1));
        assert(y@.skip(i as int).skip(1) == y@.skip(i + 1));
        i = i + 1;
    }
    if i >= x.len() {
        true
    } else if i >= y.len() {
        false
    } else {
        x[i] < y[i]
    }
}

/// Byte order is antisymmetric: two texts each no later than the other are the
/// same text.
pub proof fn text_le_antisymmetric(a: Seq<char>, b: Seq<char>)
    requires
        text_le(a, b),
        text_le(b, a),
    ensures
        a == b,
    decreases a.len(),
{
    if a.len() > 0 && b.len() > 0 {
        text_le_antisymmetric(a.skip(1), b.skip(1));
        assert(a == seq![a[0]] + a.skip(1));
        assert(b == seq![b[0]] + b.skip(1));
    }
}

/// Byte order is transitive.
pub proof fn text_le_transitive(a: Seq<char>, b: Seq<char>, c: Seq<char>)
    requires
        text_le(a, b),
        text_le(b, c),
    ensures
        text_le(a, c),
    decreases a.len(),
{
    if a.len() > 0 && b.len() > 0 && c.len() > 0 && a[0] == b[0] && b[0] == c[0] {
        text_le_transitive(a.skip(1), b.skip(1), c.skip(1));
    }
}

/// Of any two texts one comes no later than the other.
pub proof fn text_le_total(a: Seq<char>, b: Seq<char>)
    ensures
        text_le(a, b) || text_le(b, a),
    decreases a.len(),
{
    if a.len() > 0 && b.len() > 0 && a[0] == b[0] {
        text_le_total(a.skip(1), b.skip(1));
    }
}

/// A number is read back from its decimal text.
pub proof fn decimal_is_read_back(n: nat)
    ensures
        all_digits(decimal(n)),
        decimal(n).len() > 0,
        digits_value(decimal(n)) == n,
        unsigned_value(decimal(n), n) == Some(n),
    decreases n,
{
    if n < 10 {
        assert(decimal(n).drop_last() == Seq::<char>::empty());
        assert(digits_value(Seq::<char>::empty()) == 0);
    } else {
        decimal_is_read_back(n / 10);
        let d = decimal(n);
        assert(d.drop_last() == decimal(n / 10));
        assert forall|i: int| 0 <= i < d.len() implies is_digit(#[trigger] d[i]) by {
            if i < d.len() - 1 {
                assert(d[i] == decimal(n / 10)[i]);
            }
        }
    }
    assert(is_digit(decimal(n)[0]));
}

/// Splitting loses nothing and keeps nothing together: the pieces with the
/// separator between them are the text, no piece holds the separator, and there
/// is always one.
pub proof fn pieces_make_the_text(s: Seq<char>, sep: char)
    ensures
        split_at_char(s, sep).len() > 0,
        separated(split_at_char(s, sep), seq![sep]) == s,
        forall|i: int|
            0 <= i < split_at_char(s, sep).len() ==> !(#[trigger] split_at_char(
                s,
                sep,
            )[i]).contains(sep),
    decreases s.len(),
{
    let pieces = split_at_char(s, sep);
    if s.len() > 0 {
        let before = s.drop_last();
        let rest = split_at_char(before, sep);
        pieces_make_the_text(before, sep);
        assert(s == before.push(s.last()));
        assert forall|i: int| 0 <= i < pieces.len() implies !(#[trigger] pieces[i]).contains(
            sep,
        ) by {
            if i < rest.len() - 1 {
                assert(pieces[i] == rest[i]);
            } else if s.last() != sep && i == rest.len() - 1 {
                let last = rest[i];
                assert(pieces[i] == last.push(s.last()));
                if pieces[i].contains(sep) {
                    let k = pieces[i].index_of(sep);
                    assert(pieces[i][k] == sep);
                    if k < last.len() {
                        assert(last[k] == sep);
                    }
                }
            } else if i == rest.len() - 1 {
                assert(pieces[i] == rest[i]);
            }
        }
        if s.last() == sep {
            assert(pieces.drop_last() == rest);
            assert(separated(pieces, seq![sep]) == before + seq![sep] + Seq::<char>::empty());
        } else {
            assert(pieces.drop_last() == rest.drop_last());
            if rest.len() == 1 {
                assert(separated(pieces, seq![sep]) == rest[0].push(s.last()));
            } else {
                assert(separated(pieces, seq![sep]) == separated(rest.drop_last(), seq![sep])
                    + seq![sep] + rest.last().push(s.last()));
            }
        }
        assert(separated(pieces, seq![sep]) == s);
    } else {
        assert(s == Seq::<char>::empty());
    }
}

/// A text without the separator is one piece, and a text that follows another and
/// a separator adds its pieces to that.
pub proof fn pieces_follow_the_text(a: Seq<char>, b: Seq<char>, sep: char)
    requires
        !a.contains(sep),
    ensures
        split_at_char(a, sep) == seq![a],
        split_at_char(a.push(sep) + b, sep) == seq![a] + split_at_char(b, sep),
    decreases a.len() + b.len(),
{
    if b.len() > 0 {
        pieces_follow_the_text(a, b.drop_last(), sep);
        let s = a.push(sep) + b;
        let rest = split_at_char(b.drop_last(), sep);
        pieces_make_the_text(b.drop_last(), sep);
        assert(s.drop_last() == a.push(sep) + b.drop_last());
        assert(s.last() == b.last());
        let all = seq![a] + rest;
        assert(all.last() == rest.last());
        assert(all.drop_last() == seq![a] + rest.drop_last());
        assert(split_at_char(s, sep) == seq![a] + split_at_char(b, sep));
    } else {
        if a.len() > 0 {
            let before = a.drop_last();
            assert(!before.contains(sep)) by {
                if before.contains(sep) {
                    assert(a[before.index_of(sep)] == sep);
                }
            }
            assert(a[a.len() - 1] != sep);
            pieces_follow_the_text(before, b, sep);
            assert(seq![before].drop_last() == Seq::<Seq<char>>::empty());
            assert(before.push(a.last()) == a);
        } else {
            assert(a == Seq::<char>::empty());
        }
        assert(split_at_char(a, sep) == seq![a]);
        let s = a.push(sep) + b;
        assert(s.drop_last() == a);
        assert(s.last() == sep);
        assert(b == Seq::<char>::empty());
        assert(split_at_char(s, sep) == seq![a] + split_at_char(b, sep));
    }
}

/// The order of texts is that of their first difference, and a text comes before
/// whatever it begins.
pub proof fn the_first_difference_decides(
    start: Seq<char>,
    x: char,
    y: char,
    a: Seq<char>,
    b: Seq<char>,
)
    ensures
        text_le(start, start + a),
        x < y ==> text_le(start.push(x) + a, start.push(y) + b) && !text_le(
            start.push(y) + b,
            start.push(x) + a,
        ),
    decreases start.len(),
{
    if start.len() > 0 {
        let rest = start.skip(1);
        the_first_difference_decides(rest, x, y, a, b);
        assert((start + a).skip(1) == rest + a);
        assert((start.push(x) + a).skip(1) == rest.push(x) + a);
        assert((start.push(y) + b).skip(1) == rest.push(y) + b);
    }
}

/// A number is read where it is at most the bound, with or without a plus sign
/// ahead of it; a larger one is too large, and a text with anything but digits is
/// none.
pub proof fn numbers_are_read_up_to_their_bound(n: nat, max: nat, s: Seq<char>, i: int)
    ensures
        n <= max ==> unsigned_value(decimal(n), max) == Some(n),
        n <= max ==> unsigned_value(seq!['+'] + decimal(n), max) == Some(n),
        n > max ==> unsigned_value(decimal(n), max) is None,
        unsigned_value(Seq::<char>::empty(), max) is None,
        0 < i < s.len() && !is_digit(s[i]) ==> unsigned_value(s, max) is None,
        n <= 0x7fff_ffff ==> signed_value(decimal(n)) == Some(n as int),
        n <= 0x8000_0000 ==> signed_value(seq!['-'] + decimal(n)) == Some(-(n as int)),
{
    decimal_is_read_back(n);
    let d = decimal(n);
    assert(is_digit(d[0]));
    assert((seq!['+'] + d).skip(1) == d);
    assert((seq!['-'] + d).skip(1) == d);
    if 0 < i < s.len() && !is_digit(s[i]) {
        let t = without_sign(s, '+');
        if s[0] == '+' {
            assert(t[i - 1] == s[i]);
        } else {
            assert(t[i] == s[i]);
        }
    }
}

/// What the digits after a decimal point are worth, where the first is worth
/// `scale` times its value.
pub open spec fn fraction_value(digits: Seq<char>, scale: nat) -> nat
    decreases digits.len(),
{
    if digits.len() == 0 {
        0
    } else {
        ((digits[0] as nat - '0' as nat) * scale + fraction_value(
            digits.drop_first(),
            scale / 10,
        )) as nat
    }
}

proof fn lemma_fraction(part: nat, scale: nat)
    requires
        is_scale(scale),
        part < 10 * scale,
    ensures
        fraction_value(fraction_digits(part, scale), scale) == part,
        all_digits(fraction_digits(part, scale)),
        part > 0 ==> fraction_digits(part, scale).len() > 0 && fraction_digits(part, scale).last()
            != '0',
    decreases scale,
{
    if part > 0 {
        let d = part / scale;
        let left = part % scale;
        assert(d < 10 && part == d * scale + left && left < scale) by (nonlinear_arith)
            requires
                part < 10 * scale,
                d == part / scale,
                left == part % scale,
                scale > 0,
        ;
        let rest = fraction_digits(left, scale / 10);
        let all = fraction_digits(part, scale);
        assert(all == seq![digit_char(d)] + rest);
        assert(all.drop_first() == rest);
        assert(all[0] as nat - '0' as nat == d);
        if scale >= 10 {
            lemma_fraction(left, scale / 10);
        } else {
            assert(left == 0);
            assert(rest == Seq::<char>::empty());
            assert(fraction_value(rest, scale / 10) == 0);
        }
        assert(fraction_value(all, scale) == d * scale + fraction_value(rest, scale / 10));
        assert forall|i: int| 0 <= i < all.len() implies is_digit(#[trigger] all[i]) by {
            if i > 0 {
                assert(all[i] == rest[i - 1]);
            }
        }
        if left > 0 {
            assert(all.last() == rest.last());
        } else {
            assert(rest == Seq::<char>::empty());
            assert(all.last() == digit_char(d));
            if d == 0 {
                assert(d * scale == 0) by (nonlinear_arith)
                    requires
                        d == 0,
                ;
            }
        }
    } else {
        assert(fraction_digits(part, scale) == Seq::<char>::empty());
    }
}

/// A time is told exactly: the whole units, and after the point digits that are
/// worth what is left of them, the last of which is not nought. Without anything
/// left there is no point.
pub proof fn durations_are_told_exactly(n: nat, unit: nat)
    requires
        unit == 1_000 || unit == 1_000_000 || unit == 1_000_000_000,
    ensures
        ({
            let whole = decimal(n / unit);
            let digits = fraction_digits(n % unit, unit / 10);
            &&& n % unit == 0 ==> decimal_fraction(n, unit) == whole
            &&& n % unit > 0 ==> decimal_fraction(n, unit) == whole + seq!['.'] + digits
            &&& fraction_value(digits, unit / 10) == n % unit
            &&& n % unit > 0 ==> digits.len() > 0 && digits.last() != '0'
        }),
{
    reveal_with_fuel(is_scale, 10);
    assert(is_scale(unit / 10));
    lemma_fraction(n % unit, unit / 10);
    assert(decimal(n / unit) + Seq::<char>::empty() == decimal(n / unit));
    assert(decimal(n / unit) + (seq!['.'] + fraction_digits(n % unit, unit / 10)) == decimal(
        n / unit,
    ) + seq!['.'] + fraction_digits(n % unit, unit / 10));
}

/// A time is told in seconds from a second on, in milliseconds from a millisecond
/// on, in microseconds from a microsecond on, and in nanoseconds below that.
pub proof fn durations_have_their_unit(n: nat)
    ensures
        n >= 1_000_000_000 ==> exact_duration(n) == decimal_fraction(n, 1_000_000_000) + "s"@,
        1_000_000 <= n < 1_000_000_000 ==> exact_duration(n) == decimal_fraction(n, 1_000_000)
            + "ms"@,
        1_000 <= n < 1_000_000 ==> exact_duration(n) == decimal_fraction(n, 1_000) + "\u{b5}s"@,
        n < 1_000 ==> exact_duration(n) == decimal(n) + "ns"@,
{
}

} // verus!
