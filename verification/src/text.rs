//! Character-level helpers shared by the parsers and formatters: whitespace
//! tokens, lines, and decimal numbers.

use vstd::prelude::*;

verus! {

/// The characters of `s`, in order.
pub fn chars_of(s: &str) -> (v: Vec<char>)
    ensures
        v@ == s@,
{
    let mut v: Vec<char> = Vec::new();
    for c in it: s.chars()
        invariant
            it.seq() == s@,
            v@ == s@.take(it.index() as int),
    {
        v.push(c);
    }
    v
}

/// The part of `s` from `from` up to, not including, `to`.
pub fn slice_of(s: &Vec<char>, from: usize, to: usize) -> (r: Vec<char>)
    requires
        from <= to <= s.len(),
    ensures
        r@ == s@.subrange(from as int, to as int),
{
    let mut r: Vec<char> = Vec::new();
    let mut i: usize = from;
    while i < to
        invariant
            from <= i <= to <= s.len(),
            r@ == s@.subrange(from as int, i as int),
        decreases to - i,
    {
        r.push(s[i]);
        i += 1;
    }
    r
}

/// The views of a sequence of character vectors.
pub open spec fn views(v: Seq<Vec<char>>) -> Seq<Seq<char>> {
    v.map_values(|x: Vec<char>| x@)
}

/// The views of a sequence of strings.
pub open spec fn texts(v: Seq<String>) -> Seq<Seq<char>> {
    v.map_values(|x: String| x@)
}

/// White space as Unicode defines it (the `White_Space` property).
pub open spec fn is_space(c: char) -> bool {
    let u = c as u32;
    ||| 0x09 <= u <= 0x0d
    ||| u == 0x20
    ||| u == 0x85
    ||| u == 0xa0
    ||| u == 0x1680
    ||| 0x2000 <= u <= 0x200a
    ||| u == 0x2028
    ||| u == 0x2029
    ||| u == 0x202f
    ||| u == 0x205f
    ||| u == 0x3000
}

/// Whether `c` is white space.
pub fn is_whitespace(c: char) -> (b: bool)
    ensures
        b == is_space(c),
{
    let u: u32 = c as u32;
    (0x09 <= u && u <= 0x0d) || u == 0x20 || u == 0x85 || u == 0xa0 || u == 0x1680 || (0x2000 <= u
        && u <= 0x200a) || u == 0x2028 || u == 0x2029 || u == 0x202f || u == 0x205f || u == 0x3000
}

/// The maximal runs of non-white-space characters of `s`, from left to
/// right. Read from the right end: a white-space character adds nothing, a
/// character that follows a non-white-space one extends the last token, and
/// any other character starts a new token.
pub open spec fn tokens(s: Seq<char>) -> Seq<Seq<char>>
    decreases s.len(),
{
    if s.len() == 0 {
        Seq::empty()
    } else {
        let before = tokens(s.drop_last());
        let c = s.last();
        if is_space(c) {
            before
        } else if s.len() >= 2 && !is_space(s[s.len() - 2]) {
            before.drop_last().push(before.last().push(c))
        } else {
            before.push(seq![c])
        }
    }
}

/// Every token is non-empty and free of white space, and a text whose last
/// character is not white space ends with its last token.
pub proof fn lemma_tokens_shape(s: Seq<char>)
    ensures
        forall|k: int|
            0 <= k < tokens(s).len() ==> (#[trigger] tokens(s)[k]).len() > 0 && forall|j: int|
                0 <= j < tokens(s)[k].len() ==> !is_space(#[trigger] tokens(s)[k][j]),
        s.len() > 0 && !is_space(s.last()) ==> tokens(s).len() > 0,
    decreases s.len(),
{
    if s.len() > 0 {
        lemma_tokens_shape(s.drop_last());
        let before = tokens(s.drop_last());
        let c = s.last();
        if is_space(c) {
        } else if s.len() >= 2 && !is_space(s[s.len() - 2]) {
            assert(s.drop_last().last() == s[s.len() - 2]);
            let t = before.drop_last().push(before.last().push(c));
            assert forall|k: int| 0 <= k < t.len() implies (#[trigger] t[k]).len() > 0 && forall|
                j: int,
            |
                0 <= j < t[k].len() ==> !is_space(#[trigger] t[k][j]) by {
                if k < t.len() - 1 {
                    assert(t[k] == before[k]);
                } else {
                    assert(t[k] == before.last().push(c));
                }
            }
        } else {
            let t = before.push(seq![c]);
            assert forall|k: int| 0 <= k < t.len() implies (#[trigger] t[k]).len() > 0 && forall|
                j: int,
            |
                0 <= j < t[k].len() ==> !is_space(#[trigger] t[k][j]) by {
                if k < t.len() - 1 {
                    assert(t[k] == before[k]);
                }
            }
        }
    }
}

/// Splits `s` at white space, as `tokens` describes.
pub fn split_whitespace(s: &Vec<char>) -> (r: Vec<Vec<char>>)
    ensures
        views(r@) == tokens(s@),
{
    let mut done: Vec<Vec<char>> = Vec::new();
    let mut cur: Vec<char> = Vec::new();
    let mut i: usize = 0;
    assert(s@.take(0) =~= Seq::<char>::empty());
    assert(views(done@) =~= Seq::<Seq<char>>::empty());
    while i < s.len()
        invariant
            i <= s.len(),
            cur@.len() > 0 <==> (i > 0 && !is_space(s@[i - 1])),
            tokens(s@.take(i as int)) == if cur@.len() > 0 {
                views(done@).push(cur@)
            } else {
                views(done@)
            },
        decreases s.len() - i,
    {
        let c = s[i];
        let ghost prefix = s@.take(i as int + 1);
        assert(prefix.drop_last() =~= s@.take(i as int));
        assert(prefix.last() == c);
        assert(i > 0 ==> prefix[prefix.len() - 2] == s@[i - 1]);
        if is_whitespace(c) {
            if cur.len() > 0 {
                let ghost old_done = done@;
                let ghost old_cur = cur@;
                done.push(cur);
                cur = Vec::new();
                assert(views(done@) =~= views(old_done).push(old_cur));
            }
        } else {
            let ghost old_cur = cur@;
            cur.push(c);
            proof {
                assert(views(done@).push(cur@).drop_last() =~= views(done@));
                if old_cur.len() > 0 {
                    assert(views(done@).push(old_cur).drop_last().push(
                        views(done@).push(old_cur).last().push(c),
                    ) =~= views(done@).push(cur@));
                } else {
                    assert(cur@ =~= seq![c]);
                }
            }
        }
        i += 1;
    }
    assert(s@.take(i as int) =~= s@);
    if cur.len() > 0 {
        let ghost old_done = done@;
        let ghost old_cur = cur@;
        done.push(cur);
        assert(views(done@) =~= views(old_done).push(old_cur));
    }
    done
}

/// The pieces of `s` between line feeds: always at least one, the last one
/// being what follows the last line feed.
pub open spec fn lines(s: Seq<char>) -> Seq<Seq<char>>
    decreases s.len(),
{
    if s.len() == 0 {
        seq![Seq::<char>::empty()]
    } else {
        let before = lines(s.drop_last());
        if s.last() == '\n' {
            before.push(Seq::<char>::empty())
        } else {
            before.drop_last().push(before.last().push(s.last()))
        }
    }
}

/// Splits `s` at line feeds, as `lines` describes.
pub fn split_lines(s: &Vec<char>) -> (r: Vec<Vec<char>>)
    ensures
        views(r@) == lines(s@),
        r@.len() >= 1,
{
    let mut done: Vec<Vec<char>> = Vec::new();
    let mut cur: Vec<char> = Vec::new();
    let mut i: usize = 0;
    assert(s@.take(0) =~= Seq::<char>::empty());
    assert(views(done@).push(cur@) =~= seq![Seq::<char>::empty()]);
    while i < s.len()
        invariant
            i <= s.len(),
            lines(s@.take(i as int)) == views(done@).push(cur@),
        decreases s.len() - i,
    {
        let c = s[i];
        let ghost prefix = s@.take(i as int + 1);
        let ghost old_done = done@;
        let ghost old_cur = cur@;
        assert(prefix.drop_last() =~= s@.take(i as int));
        assert(prefix.last() == c);
        if c == '\n' {
            done.push(cur);
            cur = Vec::new();
            assert(views(done@) =~= views(old_done).push(old_cur));
        } else {
            cur.push(c);
            assert(views(old_done).push(old_cur).drop_last() =~= views(old_done));
        }
        i += 1;
    }
    assert(s@.take(i as int) =~= s@);
    let ghost old_done = done@;
    let ghost old_cur = cur@;
    done.push(cur);
    assert(views(done@) =~= views(old_done).push(old_cur));
    done
}

/// Whether `c` is one of the ten decimal digits.
pub open spec fn is_digit(c: char) -> bool {
    '0' <= c <= '9'
}

/// Whether `s` holds nothing but digits.
pub open spec fn all_digits(s: Seq<char>) -> bool {
    forall|i: int| 0 <= i < s.len() ==> is_digit(#[trigger] s[i])
}

/// The number that the decimal digits `s` write.
pub open spec fn decimal_value(s: Seq<char>) -> nat
    decreases s.len(),
{
    if s.len() == 0 {
        0
    } else {
        10 * decimal_value(s.drop_last()) + (s.last() as nat - '0' as nat) as nat
    }
}

/// The value of `s` read as an unsigned decimal number no larger than `max`:
/// an optional `+`, then at least one digit and nothing else.
pub open spec fn parse_unsigned(s: Seq<char>, max: nat) -> Option<nat> {
    let digits = if s.len() > 0 && s[0] == '+' {
        s.drop_first()
    } else {
        s
    };
    if digits.len() > 0 && all_digits(digits) && decimal_value(digits) <= max {
        Some(decimal_value(digits))
    } else {
        None
    }
}

/// The value of `s` read as a port number.
pub open spec fn spec_parse_u16(s: Seq<char>) -> Option<u16> {
    match parse_unsigned(s, 0xffff) {
        Some(v) => Some(v as u16),
        None => None,
    }
}

/// The value of `s` read as a signed 64-bit decimal number: an optional `+`
/// or `-`, then at least one digit and nothing else.
pub open spec fn spec_parse_i64(s: Seq<char>) -> Option<i64> {
    if s.len() > 0 && s[0] == '-' {
        let digits = s.drop_first();
        if digits.len() > 0 && all_digits(digits) && decimal_value(digits)
            <= 0x8000_0000_0000_0000 {
            Some((-(decimal_value(digits) as int)) as i64)
        } else {
            None
        }
    } else {
        match parse_unsigned(s, 0x7fff_ffff_ffff_ffff) {
            Some(v) => Some(v as i64),
            None => None,
        }
    }
}

/// Reads the digits `s[from..]` as a number, giving up above `max`.
fn read_digits(s: &Vec<char>, from: usize, max: u64) -> (r: Option<u64>)
    requires
        from <= s.len(),
        max <= 0x8000_0000_0000_0000,
    ensures
        r == (if from < s.len() && all_digits(s@.skip(from as int)) && decimal_value(
            s@.skip(from as int),
        ) <= max {
            Some(decimal_value(s@.skip(from as int)) as u64)
        } else {
            None
        }),
{
    if from >= s.len() {
        return None;
    }
    let ghost body = s@.skip(from as int);
    // `acc` follows the value read so far, held at `max + 1` once it is too large.
    let mut acc: u64 = 0;
    let mut i: usize = from;
    assert(body.take(0) =~= Seq::<char>::empty());
    while i < s.len()
        invariant
            from <= i <= s.len(),
            max <= 0x8000_0000_0000_0000,
            body == s@.skip(from as int),
            all_digits(body.take(i - from)),
            acc <= max + 1,
            acc == if decimal_value(body.take(i - from)) <= max {
                decimal_value(body.take(i - from))
            } else {
                (max + 1) as nat
            },
        decreases s.len() - i,
    {
        let c = s[i];
        let ghost read = body.take(i - from + 1);
        assert(read.drop_last() =~= body.take(i - from));
        assert(read.last() == c);
        if !('0' <= c && c <= '9') {
            assert(!is_digit(body[i - from]));
            return None;
        }
        let d: u64 = (c as u32 - '0' as u32) as u64;
        assert(d == c as nat - '0' as nat);
        if acc > max / 10 {
            acc = max + 1;
        } else {
            let next: u64 = acc * 10 + d;
            acc = if next > max {
                max + 1
            } else {
                next
            };
        }
        assert forall|k: int| 0 <= k < read.len() implies is_digit(#[trigger] read[k]) by {
            if k < read.len() - 1 {
                assert(read[k] == body.take(i - from)[k]);
            }
        }
        i += 1;
    }
    assert(body.take(i - from) =~= body);
    if acc > max {
        None
    } else {
        Some(acc)
    }
}

/// Reads `s` as a port number, as `str::parse::<u16>` does.
pub fn parse_u16(s: &Vec<char>) -> (r: Option<u16>)
    ensures
        r == spec_parse_u16(s@),
{
    let from: usize = if s.len() > 0 && s[0] == '+' {
        1
    } else {
        0
    };
    assert(s@.skip(0) =~= s@);
    assert(s@.skip(1) =~= s@.drop_first());
    match read_digits(s, from, 0xffff) {
        Some(v) => Some(v as u16),
        None => None,
    }
}

/// Reads `s` as a signed 64-bit number, as `str::parse::<i64>` does.
pub fn parse_i64(s: &Vec<char>) -> (r: Option<i64>)
    ensures
        r == spec_parse_i64(s@),
{
    assert(s@.skip(0) =~= s@);
    assert(s@.skip(1) =~= s@.drop_first());
    if s.len() > 0 && s[0] == '-' {
        match read_digits(s, 1, 0x8000_0000_0000_0000) {
            Some(v) => {
                if v == 0x8000_0000_0000_0000 {
                    Some(i64::MIN)
                } else {
                    Some(-(v as i64))
                }
            },
            None => None,
        }
    } else {
        let from: usize = if s.len() > 0 && s[0] == '+' {
            1
        } else {
            0
        };
        match read_digits(s, from, 0x7fff_ffff_ffff_ffff) {
            Some(v) => Some(v as i64),
            None => None,
        }
    }
}

/// Where the part of `s` after its last colon starts: 0 when it has none.
pub open spec fn after_last_colon_start(s: Seq<char>) -> int
    decreases s.len(),
{
    if s.len() == 0 || s.last() == ':' {
        s.len() as int
    } else {
        after_last_colon_start(s.drop_last())
    }
}

/// The part of `s` after its last colon; all of `s` when it has none.
pub open spec fn after_last_colon(s: Seq<char>) -> Seq<char> {
    s.skip(after_last_colon_start(s))
}

/// `after_last_colon(s)` holds no colon, and what stands before it in `s` is
/// empty or ends with a colon.
pub proof fn lemma_after_last_colon(s: Seq<char>)
    ensures
        0 <= after_last_colon_start(s) <= s.len(),
        after_last_colon_start(s) > 0 ==> s[after_last_colon_start(s) - 1] == ':',
        forall|i: int| after_last_colon_start(s) <= i < s.len() ==> s[i] != ':',
    decreases s.len(),
{
    if !(s.len() == 0 || s.last() == ':') {
        let front = s.drop_last();
        lemma_after_last_colon(front);
        assert forall|i: int| after_last_colon_start(s) <= i < s.len() implies s[i] != ':' by {
            if i < front.len() {
                assert(s[i] == front[i]);
            }
        }
    }
}

/// The part of `s` after its last colon.
pub fn take_after_last_colon(s: &Vec<char>) -> (r: Vec<char>)
    ensures
        r@ == after_last_colon(s@),
{
    let mut k: usize = s.len();
    while k > 0 && s[k - 1] != ':'
        invariant
            k <= s.len(),
            forall|i: int| k <= i < s.len() ==> s@[i] != ':',
        decreases k,
    {
        k -= 1;
    }
    proof {
        lemma_after_last_colon(s@);
    }
    slice_of(s, k, s.len())
}

/// Whether `pat` stands in `s` at position `i`.
pub open spec fn occurs_at(s: Seq<char>, pat: Seq<char>, i: int) -> bool {
    0 <= i && i + pat.len() <= s.len() && s.subrange(i, i + pat.len()) == pat
}

/// The first position at or after `from` where `pat` stands in `s`.
pub open spec fn first_occurrence(s: Seq<char>, pat: Seq<char>, from: int) -> Option<int>
    decreases s.len() - from + 1,
{
    if from < 0 || from + pat.len() > s.len() {
        None
    } else if occurs_at(s, pat, from) {
        Some(from)
    } else {
        first_occurrence(s, pat, from + 1)
    }
}

/// `first_occurrence` finds an occurrence, and none stands before it.
pub proof fn lemma_first_occurrence(s: Seq<char>, pat: Seq<char>, from: int)
    requires
        0 <= from,
    ensures
        match first_occurrence(s, pat, from) {
            Some(i) => from <= i && occurs_at(s, pat, i) && forall|j: int|
                from <= j < i ==> !occurs_at(s, pat, j),
            None => forall|j: int| from <= j ==> !occurs_at(s, pat, j),
        },
    decreases s.len() - from + 1,
{
    if from + pat.len() <= s.len() && !occurs_at(s, pat, from) {
        lemma_first_occurrence(s, pat, from + 1);
    }
}

/// How many digits `s` starts with.
pub open spec fn digit_run(s: Seq<char>) -> nat
    decreases s.len(),
{
    if s.len() > 0 && is_digit(s[0]) {
        1 + digit_run(s.drop_first())
    } else {
        0
    }
}

/// The longest run of digits that `s` starts with.
pub open spec fn leading_digits(s: Seq<char>) -> Seq<char> {
    s.take(digit_run(s) as int)
}

/// The leading digits are digits, and what follows them is not one.
pub proof fn lemma_digit_run(s: Seq<char>)
    ensures
        digit_run(s) <= s.len(),
        all_digits(leading_digits(s)),
        digit_run(s) < s.len() ==> !is_digit(s[digit_run(s) as int]),
    decreases s.len(),
{
    if s.len() > 0 && is_digit(s[0]) {
        let rest = s.drop_first();
        lemma_digit_run(rest);
        assert forall|i: int| 0 <= i < leading_digits(s).len() implies is_digit(
            #[trigger] leading_digits(s)[i],
        ) by {
            if i > 0 {
                assert(leading_digits(s)[i] == leading_digits(rest)[i - 1]);
            }
        }
        if digit_run(s) < s.len() {
            assert(s[digit_run(s) as int] == rest[digit_run(rest) as int]);
        }
    }
}

/// The end of the run of digits that starts at `from` in `s`.
pub fn digit_run_end(s: &Vec<char>, from: usize) -> (end: usize)
    requires
        from <= s.len(),
    ensures
        end == from + digit_run(s@.skip(from as int)),
        end <= s.len(),
{
    let mut k: usize = from;
    while k < s.len() && '0' <= s[k] && s[k] <= '9'
        invariant
            from <= k <= s.len(),
            from + digit_run(s@.skip(from as int)) == k + digit_run(s@.skip(k as int)),
        decreases s.len() - k,
    {
        assert(s@.skip(k as int).drop_first() =~= s@.skip(k as int + 1));
        k += 1;
    }
    k
}

/// The decimal digits that write `n`, without leading zeros.
pub open spec fn decimal_digits(n: nat) -> Seq<char>
    decreases n,
{
    if n < 10 {
        seq![('0' as nat + n) as char]
    } else {
        decimal_digits(n / 10).push(('0' as nat + n % 10) as char)
    }
}

/// Writing a number and reading it back gives the number.
pub proof fn lemma_decimal_round_trip(n: nat)
    ensures
        decimal_digits(n).len() > 0,
        all_digits(decimal_digits(n)),
        decimal_value(decimal_digits(n)) == n,
    decreases n,
{
    if n < 10 {
        let d = decimal_digits(n);
        assert(d.drop_last() =~= Seq::<char>::empty());
        assert(decimal_value(d.drop_last()) == 0);
    } else {
        lemma_decimal_round_trip(n / 10);
        let d = decimal_digits(n);
        assert(d.drop_last() =~= decimal_digits(n / 10));
    }
}

/// `parts` written one after another with `sep` between neighbours.
pub open spec fn join(parts: Seq<Seq<char>>, sep: Seq<char>) -> Seq<char>
    decreases parts.len(),
{
    if parts.len() == 0 {
        Seq::empty()
    } else if parts.len() == 1 {
        parts[0]
    } else {
        join(parts.drop_last(), sep) + sep + parts.last()
    }
}

/// The digit `d` as a text.
fn digit_text(d: u64) -> (r: &'static str)
    requires
        d < 10,
    ensures
        r@ == seq![('0' as nat + d) as char],
{
    proof {
        reveal_strlit("0");
        reveal_strlit("1");
        reveal_strlit("2");
        reveal_strlit("3");
        reveal_strlit("4");
        reveal_strlit("5");
        reveal_strlit("6");
        reveal_strlit("7");
        reveal_strlit("8");
        reveal_strlit("9");
    }
    let r = if d == 0 {
        "0"
    } else if d == 1 {
        "1"
    } else if d == 2 {
        "2"
    } else if d == 3 {
        "3"
    } else if d == 4 {
        "4"
    } else if d == 5 {
        "5"
    } else if d == 6 {
        "6"
    } else if d == 7 {
        "7"
    } else if d == 8 {
        "8"
    } else {
        "9"
    };
    assert(r@ =~= seq![('0' as nat + d) as char]);
    r
}

/// Appends the decimal digits of `n` to `out`.
pub fn push_decimal(out: &mut String, n: u64)
    ensures
        final(out)@ == old(out)@ + decimal_digits(n as nat),
    decreases n,
{
    if n >= 10 {
        push_decimal(out, n / 10);
    }
    let ghost before = out@;
    out.append(digit_text(n % 10));
    assert(out@ =~= old(out)@ + decimal_digits(n as nat));
}

} // verus!
