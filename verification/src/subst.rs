//! Environment substitution: expanding `$?`, `$#`, `$0`, `$NAME`,
//! `${NAME}` and a leading `~` in argument words, plus the whitespace
//! splitting that `for` wordlists use.

use vstd::prelude::*;

use crate::env::{Runtime, RuntimeModel};

verus! {

/// Characters a variable name is made of.
pub open spec fn is_name_char(c: char) -> bool {
    ('a' <= c && c <= 'z') || ('A' <= c && c <= 'Z') || c == '_'
}

/// Length of the longest name prefix of `s`.
pub open spec fn name_len(s: Seq<char>) -> nat
    decreases s.len(),
{
    if s.len() == 0 || !is_name_char(s[0]) {
        0
    } else {
        1 + name_len(s.skip(1))
    }
}

/// The name prefix is never longer than the word.
pub proof fn lemma_name_len_bound(s: Seq<char>)
    ensures
        name_len(s) <= s.len(),
    decreases s.len(),
{
    if s.len() > 0 && is_name_char(s[0]) {
        lemma_name_len_bound(s.skip(1));
    }
}

/// What an unset variable expands to: the empty word.
pub open spec fn env_value(env: Map<Seq<char>, Seq<char>>, name: Seq<char>) -> Seq<char> {
    if env.contains_key(name) {
        env[name]
    } else {
        Seq::empty()
    }
}

/// The character of one decimal digit.
pub open spec fn digit_char(d: nat) -> char {
    if d == 0 {
        '0'
    } else if d == 1 {
        '1'
    } else if d == 2 {
        '2'
    } else if d == 3 {
        '3'
    } else if d == 4 {
        '4'
    } else if d == 5 {
        '5'
    } else if d == 6 {
        '6'
    } else if d == 7 {
        '7'
    } else if d == 8 {
        '8'
    } else {
        '9'
    }
}

/// Decimal digits of a nonnegative number, most significant first.
pub open spec fn dec_digits(n: nat) -> Seq<char>
    decreases n,
{
    if n < 10 {
        seq![digit_char(n)]
    } else {
        dec_digits((n / 10) as nat).push(digit_char(n % 10))
    }
}

/// Decimal rendering of an integer.
pub open spec fn dec_int(v: int) -> Seq<char> {
    if v < 0 {
        seq!['-'] + dec_digits((-v) as nat)
    } else {
        dec_digits(v as nat)
    }
}

/// One left-to-right pass expanding the `$` forms: the special
/// parameters `$?`, `$#` and `$0`, then `$NAME` and `${NAME}`; a `$`
/// that opens no known form stays as it is, and an unset name expands
/// to nothing.
pub open spec fn subst_dollars(rt: RuntimeModel, s: Seq<char>) -> Seq<char>
    decreases s.len(),
    via subst_dollars_decreases
{
    if s.len() == 0 {
        Seq::empty()
    } else if s[0] == '$' {
        if s.len() >= 2 && s[1] == '?' {
            dec_int(rt.exit_status) + subst_dollars(rt, s.skip(2))
        } else if s.len() >= 2 && s[1] == '#' {
            dec_int(rt.args.len() as int) + subst_dollars(rt, s.skip(2))
        } else if s.len() >= 2 && s[1] == '0' {
            rt.name + subst_dollars(rt, s.skip(2))
        } else if s.len() >= 2 && s[1] == '{' {
            let n = name_len(s.skip(2)) as int;
            if n > 0 && s.len() > 2 + n && s[2 + n] == '}' {
                env_value(rt.env, s.subrange(2, 2 + n)) + subst_dollars(rt, s.skip(3 + n))
            } else {
                seq!['$'] + subst_dollars(rt, s.skip(1))
            }
        } else {
            let n = name_len(s.skip(1)) as int;
            if n > 0 {
                env_value(rt.env, s.subrange(1, 1 + n)) + subst_dollars(rt, s.skip(1 + n))
            } else {
                seq!['$'] + subst_dollars(rt, s.skip(1))
            }
        }
    } else {
        seq![s[0]] + subst_dollars(rt, s.skip(1))
    }
}

#[via_fn]
proof fn subst_dollars_decreases(rt: RuntimeModel, s: Seq<char>) {
    if s.len() >= 2 {
        lemma_name_len_bound(s.skip(1));
        lemma_name_len_bound(s.skip(2));
    }
}

/// A leading literal `~` expands to the home directory.
pub open spec fn tilde_expand(home: Seq<char>, s: Seq<char>) -> Seq<char> {
    if s.len() > 0 && s[0] == '~' {
        home + s.skip(1)
    } else {
        s
    }
}

/// Full substitution: the `$` forms first, a leading tilde last,
/// with `~` standing for `$HOME`.
pub open spec fn subst_spec(rt: RuntimeModel, w: Seq<char>) -> Seq<char> {
    tilde_expand(env_value(rt.env, "HOME"@), subst_dollars(rt, w))
}

/// Substitution changes nothing in a word without `$` and `~`.
pub proof fn lemma_subst_idempotent_on_plain(rt: RuntimeModel, w: Seq<char>)
    requires
        forall|i: int| 0 <= i < w.len() ==> w[i] != '$' && w[i] != '~',
    ensures
        subst_spec(rt, w) == w,
{
    lemma_subst_dollars_plain(rt, w);
}

proof fn lemma_subst_dollars_plain(rt: RuntimeModel, w: Seq<char>)
    requires
        forall|i: int| 0 <= i < w.len() ==> w[i] != '$',
    ensures
        subst_dollars(rt, w) == w,
    decreases w.len(),
{
    if w.len() > 0 {
        assert(forall|i: int| 0 <= i < w.skip(1).len() ==> #[trigger] w.skip(1)[i] != '$');
        lemma_subst_dollars_plain(rt, w.skip(1));
        assert(subst_dollars(rt, w) =~= w);
    }
}

/// Length of the longest prefix free of `sep`.
pub open spec fn sep_free_prefix(s: Seq<char>, sep: char) -> int
    decreases s.len(),
{
    if s.len() == 0 || s[0] == sep {
        0
    } else {
        1 + sep_free_prefix(s.skip(1), sep)
    }
}

/// The separator-free prefix is never longer than the word.
pub proof fn lemma_sep_free_prefix_bound(s: Seq<char>, sep: char)
    ensures
        0 <= sep_free_prefix(s, sep) <= s.len(),
    decreases s.len(),
{
    if s.len() > 0 && s[0] != sep {
        lemma_sep_free_prefix_bound(s.skip(1), sep);
    }
}

/// The separator-free prefix ends exactly at the first separator.
pub proof fn lemma_sep_free_prefix_is(s: Seq<char>, sep: char, m: int)
    requires
        0 <= m <= s.len(),
        forall|k: int| 0 <= k < m ==> s[k] != sep,
        m == s.len() || s[m] == sep,
    ensures
        sep_free_prefix(s, sep) == m,
    decreases m,
{
    if m > 0 {
        assert(forall|k: int| 0 <= k < m - 1 ==> #[trigger] s.skip(1)[k] != sep);
        assert(m - 1 == s.skip(1).len() || s.skip(1)[m - 1] == sep);
        lemma_sep_free_prefix_is(s.skip(1), sep, m - 1);
    }
}

/// Splitting a word at every occurrence of `sep`; consecutive
/// separators yield empty fields, as `str::split` does.
pub open spec fn split_at_char(s: Seq<char>, sep: char) -> Seq<Seq<char>>
    decreases s.len(),
    via split_at_char_decreases
{
    let k = sep_free_prefix(s, sep);
    if k == s.len() {
        seq![s]
    } else {
        seq![s.subrange(0, k)] + split_at_char(s.skip(k + 1), sep)
    }
}

#[via_fn]
proof fn split_at_char_decreases(s: Seq<char>, sep: char) {
    lemma_sep_free_prefix_bound(s, sep);
}

/// A `for` wordlist expanded: each entry split at spaces, in order.
pub open spec fn expand_words(ws: Seq<Seq<char>>) -> Seq<Seq<char>>
    decreases ws.len(),
{
    if ws.len() == 0 {
        Seq::empty()
    } else {
        split_at_char(ws[0], ' ') + expand_words(ws.skip(1))
    }
}

/// Relies on `String::push`: appends exactly the given character.
#[verifier::external_body]
fn push_char(s: &mut String, c: char)
    ensures
        final(s)@ == old(s)@.push(c),
{
    s.push(c);
}

/// The characters of a word.
pub fn str_to_chars(s: &String) -> (r: Vec<char>)
    ensures
        r@ == s@,
{
    let mut r: Vec<char> = Vec::new();
    let n = s.as_str().unicode_len();
    let mut i: usize = 0;
    while i < n
        invariant
            i <= n,
            n == s@.len(),
            r@ == s@.subrange(0, i as int),
        decreases n - i,
    {
        let c = s.as_str().get_char(i);
        r.push(c);
        i += 1;
        proof {
            assert(r@ =~= s@.subrange(0, i as int));
        }
    }
    proof {
        assert(s@.subrange(0, n as int) =~= s@);
    }
    r
}

/// A word made of the given characters.
pub fn chars_to_string(v: &Vec<char>) -> (r: String)
    ensures
        r@ == v@,
{
    let mut r = String::new();
    let mut i: usize = 0;
    while i < v.len()
        invariant
            i <= v.len(),
            r@ == v@.subrange(0, i as int),
        decreases v.len() - i,
    {
        push_char(&mut r, v[i]);
        i += 1;
        proof {
            assert(r@ =~= v@.subrange(0, i as int));
        }
    }
    proof {
        assert(v@.subrange(0, v@.len() as int) =~= v@);
    }
    r
}

/// Append all of `add` to `out`.
fn push_chars(out: &mut Vec<char>, add: &Vec<char>)
    ensures
        final(out)@ == old(out)@ + add@,
{
    let mut i: usize = 0;
    while i < add.len()
        invariant
            i <= add.len(),
            out@ == old(out)@ + add@.subrange(0, i as int),
        decreases add.len() - i,
    {
        out.push(add[i]);
        i += 1;
        proof {
            assert(out@ =~= old(out)@ + add@.subrange(0, i as int));
        }
    }
    proof {
        assert(old(out)@ + add@.subrange(0, add@.len() as int) =~= old(out)@ + add@);
    }
}

/// The decimal digits of a nonnegative number, as characters.
fn dec_digits_chars(n0: u64) -> (r: Vec<char>)
    ensures
        r@ == dec_digits(n0 as nat),
{
    let mut digits: Vec<char> = Vec::new();
    let mut n: u64 = n0;
    while n >= 10
        invariant
            dec_digits(n0 as nat) =~= dec_digits(n as nat) + digits@.reverse(),
        decreases n,
    {
        let d = digit_to_char(n % 10);
        proof {
            let m = n as nat;
            assert(dec_digits(m) == dec_digits((m / 10) as nat).push(digit_char(m % 10)));
            assert((dec_digits((m / 10) as nat) + digits@.push(digit_char(m % 10)).reverse())
                =~= dec_digits((m / 10) as nat).push(digit_char(m % 10)) + digits@.reverse());
        }
        digits.push(d);
        n = n / 10;
    }
    let d = digit_to_char(n % 10);
    proof {
        assert((n % 10) as nat == n as nat);
        assert((dec_digits(n as nat) + digits@.push(digit_char(n as nat)).reverse()) =~= dec_digits(
            n as nat,
        ).push(digit_char(n as nat)) + digits@.reverse());
    }
    digits.push(d);
    let mut r: Vec<char> = Vec::new();
    let mut i: usize = digits.len();
    while i > 0
        invariant
            i <= digits.len(),
            r@ == digits@.subrange(i as int, digits@.len() as int).reverse(),
        decreases i,
    {
        i = i - 1;
        r.push(digits[i]);
        proof {
            assert(r@ =~= digits@.subrange(i as int, digits@.len() as int).reverse());
        }
    }
    proof {
        assert(digits@.subrange(0, digits@.len() as int) =~= digits@);
        assert(r@ =~= dec_digits(n0 as nat));
    }
    r
}

/// The decimal rendering of a signed number, as characters.
fn dec_i32_chars(v: i32) -> (r: Vec<char>)
    ensures
        r@ == dec_int(v as int),
{
    if v < 0 {
        let mag = (-(v as i64)) as u64;
        let digits = dec_digits_chars(mag);
        let mut r: Vec<char> = Vec::new();
        r.push('-');
        push_chars(&mut r, &digits);
        proof {
            assert(r@ =~= seq!['-'] + dec_digits((-(v as int)) as nat));
        }
        r
    } else {
        dec_digits_chars(v as u64)
    }
}

/// The character of one digit.
fn digit_to_char(d: u64) -> (r: char)
    requires
        d < 10,
    ensures
        r == digit_char(d as nat),
{
    if d == 0 {
        '0'
    } else if d == 1 {
        '1'
    } else if d == 2 {
        '2'
    } else if d == 3 {
        '3'
    } else if d == 4 {
        '4'
    } else if d == 5 {
        '5'
    } else if d == 6 {
        '6'
    } else if d == 7 {
        '7'
    } else if d == 8 {
        '8'
    } else {
        '9'
    }
}

/// How many name characters follow position `from`.
fn scan_name(chars: &Vec<char>, from: usize) -> (n: usize)
    requires
        from <= chars@.len(),
    ensures
        n == name_len(chars@.skip(from as int)),
        from + n <= chars@.len(),
    decreases chars@.len() - from,
{
    proof {
        lemma_name_len_bound(chars@.skip(from as int));
    }
    if from < chars.len() {
        let c = chars[from];
        if ('a' <= c && c <= 'z') || ('A' <= c && c <= 'Z') || c == '_' {
            let rest = scan_name(chars, from + 1);
            proof {
                assert(chars@.skip(from as int).skip(1) =~= chars@.skip(from as int + 1));
            }
            return 1 + rest;
        }
    }
    0
}

/// Look a variable's value up as characters.
fn env_value_chars(rt: &Runtime, name: &String) -> (r: Vec<char>)
    ensures
        r@ == env_value(rt@.env, name@),
{
    match rt.env.get(name) {
        Option::Some(v) => str_to_chars(v),
        Option::None => Vec::new(),
    }
}

/// Expand the `$` forms of a word.
fn subst_dollars_exec(rt: &Runtime, chars: &Vec<char>) -> (r: Vec<char>)
    ensures
        r@ == subst_dollars(rt@, chars@),
{
    let mut out: Vec<char> = Vec::new();
    let mut i: usize = 0;
    proof {
        assert(chars@.skip(0) =~= chars@);
        assert(out@ + subst_dollars(rt@, chars@) =~= subst_dollars(rt@, chars@));
    }
    while i < chars.len()
        invariant
            i <= chars.len(),
            subst_dollars(rt@, chars@) == out@ + subst_dollars(rt@, chars@.skip(i as int)),
        decreases chars.len() - i,
    {
        let ghost s = chars@.skip(i as int);
        let ghost old_out = out@;
        let c = chars[i];
        proof {
            assert(s[0] == chars@[i as int]);
        }
        if c == '$' {
            let next = if i + 1 < chars.len() {
                Option::Some(chars[i + 1])
            } else {
                Option::None
            };
            proof {
                if i + 1 < chars@.len() {
                    assert(s[1] == chars@[i as int + 1]);
                }
            }
            match next {
                Option::Some(n1) if n1 == '?' => {
                    let digits = dec_i32_chars(rt.exit_status);
                    push_chars(&mut out, &digits);
                    i = i + 2;
                    proof {
                        assert(s.skip(2) =~= chars@.skip(i as int));
                    }
                },
                Option::Some(n1) if n1 == '#' => {
                    let count = rt.args.len();
                    let digits = dec_digits_chars(count as u64);
                    proof {
                        assert(crate::ast::strings_view(rt.args@).len() == rt.args@.len());
                        assert(dec_int(rt@.args.len() as int) == dec_digits(count as nat));
                    }
                    push_chars(&mut out, &digits);
                    i = i + 2;
                    proof {
                        assert(s.skip(2) =~= chars@.skip(i as int));
                    }
                },
                Option::Some(n1) if n1 == '0' => {
                    let name_chars = str_to_chars(&rt.name);
                    push_chars(&mut out, &name_chars);
                    i = i + 2;
                    proof {
                        assert(s.skip(2) =~= chars@.skip(i as int));
                    }
                },
                Option::Some(n1) if n1 == '{' => {
                    let n = scan_name(chars, i + 2);
                    proof {
                        assert(s.skip(2) =~= chars@.skip(i as int + 2));
                    }
                    if n > 0 && i + 2 + n < chars.len() && chars[i + 2 + n] == '}' {
                        proof {
                            assert(s[2 + n as int] == chars@[i as int + 2 + n as int]);
                        }
                        let mut name_vec: Vec<char> = Vec::new();
                        let mut k: usize = i + 2;
                        let stop = i + 2 + n;
                        while k < stop
                            invariant
                                i + 2 <= k <= stop,
                                stop == i + 2 + n,
                                stop <= chars@.len(),
                                name_vec@ == chars@.subrange(i as int + 2, k as int),
                            decreases stop - k,
                        {
                            name_vec.push(chars[k]);
                            k += 1;
                            proof {
                                assert(name_vec@ =~= chars@.subrange(i as int + 2, k as int));
                            }
                        }
                        let name = chars_to_string(&name_vec);
                        proof {
                            assert(name@ =~= s.subrange(2, 2 + n as int));
                        }
                        let value = env_value_chars(rt, &name);
                        push_chars(&mut out, &value);
                        i = i + 3 + n;
                        proof {
                            assert(s.skip(3 + n as int) =~= chars@.skip(i as int));
                        }
                    } else {
                        out.push('$');
                        i = i + 1;
                        proof {
                            assert(s.skip(1) =~= chars@.skip(i as int));
                        }
                    }
                },
                _ => {
                    let n = scan_name(chars, i + 1);
                    proof {
                        assert(s.skip(1) =~= chars@.skip(i as int + 1));
                    }
                    if n > 0 {
                        let mut name_vec: Vec<char> = Vec::new();
                        let mut k: usize = i + 1;
                        let stop = i + 1 + n;
                        while k < stop
                            invariant
                                i + 1 <= k <= stop,
                                stop == i + 1 + n,
                                stop <= chars@.len(),
                                name_vec@ == chars@.subrange(i as int + 1, k as int),
                            decreases stop - k,
                        {
                            name_vec.push(chars[k]);
                            k += 1;
                            proof {
                                assert(name_vec@ =~= chars@.subrange(i as int + 1, k as int));
                            }
                        }
                        let name = chars_to_string(&name_vec);
                        proof {
                            assert(name@ =~= s.subrange(1, 1 + n as int));
                        }
                        let value = env_value_chars(rt, &name);
                        push_chars(&mut out, &value);
                        i = i + 1 + n;
                        proof {
                            assert(s.skip(1 + n as int) =~= chars@.skip(i as int));
                        }
                    } else {
                        out.push('$');
                        i = i + 1;
                        proof {
                            assert(s.skip(1) =~= chars@.skip(i as int));
                        }
                    }
                },
            }
        } else {
            out.push(c);
            i = i + 1;
            proof {
                assert(s.skip(1) =~= chars@.skip(i as int));
                assert(out@ =~= old_out + seq![s[0]]);
            }
        }
        proof {
            assert(subst_dollars(rt@, chars@) =~= out@ + subst_dollars(
                rt@,
                chars@.skip(i as int),
            ));
        }
    }
    proof {
        assert(chars@.skip(chars@.len() as int) =~= Seq::<char>::empty());
        assert(out@ =~= subst_dollars(rt@, chars@));
    }
    out
}

/// Expand a word against the runtime: the `$` forms, then a leading
/// `~` to the value of `HOME`. An unset variable expands to the empty
/// word; a word without `$` and `~` comes back unchanged.
pub fn envsubst(rt: &Runtime, arg: &String) -> (r: String)
    ensures
        r@ == subst_spec(rt@, arg@),
{
    let chars = str_to_chars(arg);
    let expanded = subst_dollars_exec(rt, &chars);
    if expanded.len() > 0 && expanded[0] == '~' {
        let home_key = String::from_str("HOME");
        let mut result = env_value_chars(rt, &home_key);
        let mut i: usize = 1;
        let ghost base = result@;
        while i < expanded.len()
            invariant
                1 <= i <= expanded@.len(),
                result@ == base + expanded@.subrange(1, i as int),
            decreases expanded.len() - i,
        {
            result.push(expanded[i]);
            i += 1;
            proof {
                assert(result@ =~= base + expanded@.subrange(1, i as int));
            }
        }
        proof {
            assert(expanded@.subrange(1, expanded@.len() as int) =~= expanded@.skip(1));
            assert(result@ =~= subst_spec(rt@, arg@));
        }
        chars_to_string(&result)
    } else {
        chars_to_string(&expanded)
    }
}

/// Expand a `for` wordlist: split every entry at spaces, keeping order.
pub fn expand_wordlist(wordlist: &Vec<String>) -> (r: Vec<String>)
    ensures
        crate::ast::strings_view(r@) == expand_words(crate::ast::strings_view(wordlist@)),
{
    let ghost wl = crate::ast::strings_view(wordlist@);
    let mut r: Vec<String> = Vec::new();
    let mut w: usize = 0;
    proof {
        assert(crate::ast::strings_view(r@) =~= expand_words(wl.subrange(0, 0)));
    }
    while w < wordlist.len()
        invariant
            w <= wordlist.len(),
            wl == crate::ast::strings_view(wordlist@),
            wl.len() == wordlist@.len(),
            crate::ast::strings_view(r@) == expand_words(wl.subrange(0, w as int)),
        decreases wordlist.len() - w,
    {
        let chars = str_to_chars(&wordlist[w]);
        let ghost whole = chars@;
        proof {
            assert(whole == wl[w as int]);
        }
        let mut start: usize = 0;
        let mut j: usize = 0;
        let ghost done: Seq<Seq<char>> = Seq::empty();
        let ghost mut parts = done;
        proof {
            assert(whole.skip(0) =~= whole);
            assert(parts + split_at_char(whole, ' ') =~= split_at_char(whole, ' '));
            assert(expand_words(wl.subrange(0, w as int)) + parts =~= expand_words(
                wl.subrange(0, w as int),
            ));
        }
        while j < chars.len()
            invariant
                start <= j <= chars@.len(),
                whole == chars@,
                wl == crate::ast::strings_view(wordlist@),
                split_at_char(whole, ' ') == parts + split_at_char(whole.skip(start as int), ' '),
                forall|k: int| start <= k < j ==> whole[k] != ' ',
                crate::ast::strings_view(r@) == expand_words(wl.subrange(0, w as int)) + parts,
            decreases chars.len() - j,
        {
            if chars[j] == ' ' {
                let mut piece: Vec<char> = Vec::new();
                let mut k: usize = start;
                while k < j
                    invariant
                        start <= k <= j <= chars@.len(),
                        whole == chars@,
                        piece@ == whole.subrange(start as int, k as int),
                    decreases j - k,
                {
                    piece.push(chars[k]);
                    k += 1;
                    proof {
                        assert(piece@ =~= whole.subrange(start as int, k as int));
                    }
                }
                let word = chars_to_string(&piece);
                let ghost old_view = crate::ast::strings_view(r@);
                r.push(word);
                proof {
                    assert(crate::ast::strings_view(r@) =~= old_view + seq![
                        whole.subrange(start as int, j as int),
                    ]);
                    let tail = whole.skip(start as int);
                    let m = j - start as int;
                    assert(forall|k: int| 0 <= k < m ==> #[trigger] tail[k] != ' ');
                    assert(tail[m] == whole[j as int]);
                    lemma_sep_free_prefix_is(tail, ' ', m);
                    assert(tail.subrange(0, m) =~= whole.subrange(start as int, j as int));
                    assert(tail.skip(m + 1) =~= whole.skip(j as int + 1));
                    parts = parts + seq![whole.subrange(start as int, j as int)];
                    assert(split_at_char(whole, ' ') =~= parts + split_at_char(
                        whole.skip(j as int + 1),
                        ' ',
                    ));
                    assert(crate::ast::strings_view(r@) =~= expand_words(
                        wl.subrange(0, w as int),
                    ) + parts);
                }
                start = j + 1;
                j = j + 1;
            } else {
                j = j + 1;
            }
        }
        let mut piece: Vec<char> = Vec::new();
        let mut k: usize = start;
        while k < chars.len()
            invariant
                start <= k <= chars@.len(),
                whole == chars@,
                piece@ == whole.subrange(start as int, k as int),
            decreases chars.len() - k,
        {
            piece.push(chars[k]);
            k += 1;
            proof {
                assert(piece@ =~= whole.subrange(start as int, k as int));
            }
        }
        let word = chars_to_string(&piece);
        let ghost old_view = crate::ast::strings_view(r@);
        r.push(word);
        proof {
            let tail = whole.skip(start as int);
            assert(forall|k: int| 0 <= k < tail.len() ==> #[trigger] tail[k] != ' ');
            lemma_sep_free_prefix_is(tail, ' ', tail.len() as int);
            assert(tail =~= whole.subrange(start as int, whole.len() as int));
            assert(crate::ast::strings_view(r@) =~= old_view + seq![tail]);
            parts = parts + seq![tail];
            assert(split_at_char(whole, ' ') =~= parts);
            assert(crate::ast::strings_view(r@) =~= expand_words(wl.subrange(0, w as int))
                + split_at_char(whole, ' '));
            lemma_expand_words_push(wl.subrange(0, w as int), whole);
            assert(wl.subrange(0, w as int).push(whole) =~= wl.subrange(0, w as int + 1));
            assert(crate::ast::strings_view(r@) =~= expand_words(wl.subrange(0, w as int + 1)));
        }
        w += 1;
    }
    proof {
        assert(wl.subrange(0, wl.len() as int) =~= wl);
    }
    r
}

/// Split a word at every occurrence of `sep`, as `str::split` does:
/// consecutive separators yield empty fields, and there is always at
/// least one field.
pub fn split_string(s: &String, sep: char) -> (r: Vec<String>)
    ensures
        crate::ast::strings_view(r@) == split_at_char(s@, sep),
        r@.len() >= 1,
{
    let chars = str_to_chars(s);
    let ghost whole = chars@;
    let mut r: Vec<String> = Vec::new();
    let mut start: usize = 0;
    let mut j: usize = 0;
    let ghost done: Seq<Seq<char>> = Seq::empty();
    let ghost mut parts = done;
    proof {
        assert(whole.skip(0) =~= whole);
        assert(parts + split_at_char(whole, sep) =~= split_at_char(whole, sep));
    }
    while j < chars.len()
        invariant
            start <= j <= chars@.len(),
            whole == chars@,
            split_at_char(whole, sep) == parts + split_at_char(whole.skip(start as int), sep),
            forall|k: int| start <= k < j ==> whole[k] != sep,
            crate::ast::strings_view(r@) == parts,
        decreases chars.len() - j,
    {
        if chars[j] == sep {
            let mut piece: Vec<char> = Vec::new();
            let mut k: usize = start;
            while k < j
                invariant
                    start <= k <= j <= chars@.len(),
                    whole == chars@,
                    piece@ == whole.subrange(start as int, k as int),
                decreases j - k,
            {
                piece.push(chars[k]);
                k += 1;
                proof {
                    assert(piece@ =~= whole.subrange(start as int, k as int));
                }
            }
            let word = chars_to_string(&piece);
            let ghost old_view = crate::ast::strings_view(r@);
            r.push(word);
            proof {
                assert(crate::ast::strings_view(r@) =~= old_view + seq![
                    whole.subrange(start as int, j as int),
                ]);
                let tail = whole.skip(start as int);
                let m = j - start as int;
                assert(forall|k: int| 0 <= k < m ==> #[trigger] tail[k] != sep);
                assert(tail[m] == whole[j as int]);
                lemma_sep_free_prefix_is(tail, sep, m);
                assert(tail.subrange(0, m) =~= whole.subrange(start as int, j as int));
                assert(tail.skip(m + 1) =~= whole.skip(j as int + 1));
                parts = parts + seq![whole.subrange(start as int, j as int)];
                assert(split_at_char(whole, sep) =~= parts + split_at_char(
                    whole.skip(j as int + 1),
                    sep,
                ));
            }
            start = j + 1;
            j = j + 1;
        } else {
            j = j + 1;
        }
    }
    let mut piece: Vec<char> = Vec::new();
    let mut k: usize = start;
    while k < chars.len()
        invariant
            start <= k <= chars@.len(),
            whole == chars@,
            piece@ == whole.subrange(start as int, k as int),
        decreases chars.len() - k,
    {
        piece.push(chars[k]);
        k += 1;
        proof {
            assert(piece@ =~= whole.subrange(start as int, k as int));
        }
    }
    let word = chars_to_string(&piece);
    let ghost old_view = crate::ast::strings_view(r@);
    r.push(word);
    proof {
        let tail = whole.skip(start as int);
        assert(forall|k: int| 0 <= k < tail.len() ==> #[trigger] tail[k] != sep);
        lemma_sep_free_prefix_is(tail, sep, tail.len() as int);
        assert(tail =~= whole.subrange(start as int, whole.len() as int));
        assert(crate::ast::strings_view(r@) =~= old_view + seq![tail]);
        parts = parts + seq![tail];
        assert(split_at_char(whole, sep) =~= parts);
        assert(crate::ast::strings_view(r@) =~= split_at_char(whole, sep));
    }
    r
}

/// Appending one word to a list appends its fields to the expansion.
proof fn lemma_expand_words_push(ws: Seq<Seq<char>>, w: Seq<char>)
    ensures
        expand_words(ws.push(w)) == expand_words(ws) + split_at_char(w, ' '),
    decreases ws.len(),
{
    if ws.len() == 0 {
        assert(ws.push(w)[0] == w);
        let e = ws.push(w).skip(1);
        assert(e =~= Seq::<Seq<char>>::empty());
        assert(expand_words(e) == Seq::<Seq<char>>::empty());
        assert(expand_words(ws.push(w)) == split_at_char(ws.push(w)[0], ' ') + expand_words(e));
        assert(expand_words(ws.push(w)) =~= split_at_char(w, ' '));
        assert(expand_words(ws) + split_at_char(w, ' ') =~= split_at_char(w, ' '));
    } else {
        assert(ws.push(w).skip(1) =~= ws.skip(1).push(w));
        lemma_expand_words_push(ws.skip(1), w);
        assert(ws.push(w)[0] == ws[0]);
        assert(expand_words(ws.push(w)) =~= expand_words(ws) + split_at_char(w, ' '));
    }
}

} // verus!
