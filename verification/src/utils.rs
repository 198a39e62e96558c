//! Host pattern matching and the short identifier hash.

use vstd::prelude::*;
use crate::text::{chars_of, find_from, index_from, lemma_index_shift_at, push_char};

verus! {

/// The characters that a backslash in a pattern can protect.
pub open spec fn is_special(c: char) -> bool {
    c == '\\' || c == '*' || c == '?'
}

/// Whether pattern `p` matches target `t`.
///
/// The matcher walks both texts in step. In the pattern, `?` stands for any
/// one character, `*` for a run of characters that ends where the pattern
/// character after the star is next found, and a backslash before `\`, `*`
/// or `?` for that character itself.
pub open spec fn wild_match(p: Seq<char>, t: Seq<char>) -> bool {
    match_from(p, t, 0, 0, 0)
}

/// The state of the walk: `i` characters of the pattern and `j` of the target
/// have been read, and `k` pattern characters were read as the character after
/// a star. What follows a later star or backslash is then looked up `k`
/// places before the reading position.
pub open spec fn match_from(p: Seq<char>, t: Seq<char>, i: int, j: int, k: int) -> bool
    decreases p.len() + t.len(), p.len() - i,
{
    if !(0 <= k <= i <= p.len() && 0 <= j <= t.len()) {
        false
    } else if i == p.len() {
        j == t.len()
    } else if p[i] == '?' {
        j < t.len() && match_from(p, t, i + 1, j + 1, k)
    } else if p[i] == '*' {
        if j == t.len() {
            true
        } else {
            let rest = i + 1 - k;
            if match_from(p.skip(rest), t.skip(j), 0, 0, 0) {
                true
            } else if i + 1 == p.len() {
                true
            } else if p[i + 1] == t[j] {
                match_from(p.skip(rest - 1), t.skip(j + 1), 0, 0, 0) || match_from(
                    p,
                    t,
                    i + 2,
                    j + 1,
                    k + 1,
                )
            } else {
                let at = index_from(t, p[i + 1], j + 1);
                j < at < t.len() && match_from(p.skip(rest), t.skip(at), 0, 0, 0)
            }
        }
    } else if j == t.len() {
        false
    } else if p[i] == '\\' && i + 1 - k < p.len() && is_special(p[i + 1 - k]) {
        t[j] == p[i + 1 - k] && match_from(p.skip(i + 2 - k), t.skip(j + 1), 0, 0, 0)
    } else {
        p[i] == t[j] && match_from(p, t, i + 1, j + 1, k)
    }
}

fn match_chars(p: &[char], ps: usize, t: &[char], ts: usize) -> (r: bool)
    requires
        ps <= p@.len(),
        ts <= t@.len(),
    ensures
        r == wild_match(p@.skip(ps as int), t@.skip(ts as int)),
    decreases p@.len() - ps + t@.len() - ts,
{
    let ghost pp = p@.skip(ps as int);
    let ghost tt = t@.skip(ts as int);
    let pn: usize = p.len() - ps;
    let tn: usize = t.len() - ts;
    let mut i: usize = 0;
    let mut j: usize = 0;
    let mut k: usize = 0;
    loop
        invariant
            ps <= p@.len(),
            ts <= t@.len(),
            pp == p@.skip(ps as int),
            tt == t@.skip(ts as int),
            pn == pp.len(),
            tn == tt.len(),
            ps + pn == p@.len(),
            ts + tn == t@.len(),
            p@.len() <= usize::MAX,
            t@.len() <= usize::MAX,
            k <= i <= pn,
            j <= tn,
            match_from(pp, tt, i as int, j as int, k as int) == wild_match(pp, tt),
        decreases pn - i,
    {
        if i == pn {
            return j == tn;
        }
        let c = p[ps + i];
        assert(c == pp[i as int]);
        if c == '?' {
            if j == tn {
                return false;
            }
            i += 1;
            j += 1;
        } else if c == '*' {
            if j == tn {
                return true;
            }
            let d = t[ts + j];
            assert(d == tt[j as int]);
            let rest: usize = i + 1 - k;
            assert(pp.skip(rest as int) =~= p@.skip(ps + rest));
            assert(tt.skip(j as int) =~= t@.skip(ts + j));
            if match_chars(p, ps + rest, t, ts + j) {
                return true;
            }
            if i + 1 == pn {
                return true;
            }
            let tag = p[ps + i + 1];
            assert(tag == pp[i + 1]);
            if tag == d {
                assert(pp.skip(rest - 1) =~= p@.skip(ps + rest - 1));
                assert(tt.skip(j + 1) =~= t@.skip(ts + j + 1));
                if match_chars(p, ps + rest - 1, t, ts + j + 1) {
                    return true;
                }
                i += 2;
                j += 1;
                k += 1;
            } else {
                let at = find_from(t, tag, ts + j + 1);
                proof {
                    lemma_index_shift_at(t@, tag, ts as int, j + 1);
                    assert(index_from(tt, tag, j + 1) == at - ts);
                }
                if at >= t.len() {
                    return false;
                }
                assert(tt.skip(at - ts) =~= t@.skip(at as int));
                return match_chars(p, ps + rest, t, at);
            }
        } else {
            if j == tn {
                return false;
            }
            let d = t[ts + j];
            assert(d == tt[j as int]);
            let next: usize = i + 1 - k;
            if c == '\\' && next < pn {
                let e = p[ps + next];
                assert(e == pp[next as int]);
                if e == '\\' || e == '*' || e == '?' {
                    if d != e {
                        return false;
                    }
                    assert(pp.skip(next + 1) =~= p@.skip(ps + next + 1));
                    assert(tt.skip(j + 1) =~= t@.skip(ts + j + 1));
                    return match_chars(p, ps + next + 1, t, ts + j + 1);
                }
            }
            if c != d {
                return false;
            }
            i += 1;
            j += 1;
        }
    }
}

/// Whether `target` matches `pattern`.
pub fn mini_match(pattern: &str, target: &str) -> (r: bool)
    ensures
        r == wild_match(pattern@, target@),
{
    let p = chars_of(pattern);
    let t = chars_of(target);
    assert(p@.skip(0) =~= p@);
    assert(t@.skip(0) =~= t@);
    match_chars(p.as_slice(), 0, t.as_slice(), 0)
}

/// Whether `target` matches `pattern`, both given as characters.
pub fn match_text(pattern: &[char], target: &[char]) -> (r: bool)
    ensures
        r == wild_match(pattern@, target@),
{
    assert(pattern@.skip(0) =~= pattern@);
    assert(target@.skip(0) =~= target@);
    match_chars(pattern, 0, target, 0)
}

/// Whether none of `?`, `*` and `\` stands in the pattern.
pub open spec fn is_plain(p: Seq<char>) -> bool {
    forall|i: int| 0 <= i < p.len() ==> !is_special(#[trigger] p[i])
}

proof fn lemma_plain_from(p: Seq<char>, t: Seq<char>, i: int)
    requires
        is_plain(p),
        0 <= i <= p.len(),
        i <= t.len(),
    ensures
        match_from(p, t, i, i, 0) == (p.skip(i) == t.skip(i)),
    decreases p.len() - i,
{
    if i == p.len() {
        if i == t.len() {
            assert(p.skip(i) =~= t.skip(i));
        } else {
            assert(p.skip(i).len() != t.skip(i).len());
        }
    } else {
        assert(!is_special(p[i]));
        if i == t.len() {
            assert(p.skip(i).len() != t.skip(i).len());
        } else if p[i] == t[i] {
            lemma_plain_from(p, t, i + 1);
            if p.skip(i + 1) == t.skip(i + 1) {
                assert(p.skip(i) =~= seq![p[i]] + p.skip(i + 1));
                assert(t.skip(i) =~= seq![t[i]] + t.skip(i + 1));
            } else {
                if p.skip(i) == t.skip(i) {
                    assert(p.skip(i).skip(1) =~= p.skip(i + 1));
                    assert(t.skip(i).skip(1) =~= t.skip(i + 1));
                }
            }
        } else {
            assert(p.skip(i)[0] != t.skip(i)[0]);
        }
    }
}

/// A pattern without `?`, `*` and `\` matches itself and nothing else.
pub proof fn lemma_plain_pattern(p: Seq<char>, t: Seq<char>)
    requires
        is_plain(p),
    ensures
        wild_match(p, t) == (p == t),
{
    lemma_plain_from(p, t, 0);
    assert(p.skip(0) =~= p);
    assert(t.skip(0) =~= t);
}

/// The pattern `*` matches every target.
pub proof fn lemma_star_matches_all(t: Seq<char>)
    ensures
        wild_match(seq!['*'], t),
{
    let p = seq!['*'];
    assert(p[0] == '*');
    if t.len() > 0 {
        assert(p.len() == 1);
    }
}

/// The empty pattern matches the empty target only.
pub proof fn lemma_empty_pattern(t: Seq<char>)
    ensures
        wild_match(Seq::<char>::empty(), t) == (t.len() == 0),
{
}

/// The walk does not look at what it has left behind: without the first `n`
/// characters of the pattern and the first `m` of the target, which were
/// read and are not looked up any more, it goes on in the same way.
pub proof fn lemma_walk_forgets(
    p: Seq<char>,
    t: Seq<char>,
    i: int,
    j: int,
    k: int,
    n: int,
    m: int,
)
    requires
        0 <= k <= i <= p.len(),
        0 <= j <= t.len(),
        0 <= n <= i - k,
        0 <= m <= j,
    ensures
        match_from(p, t, i, j, k) == match_from(p.skip(n), t.skip(m), i - n, j - m, k),
    decreases p.len() - i,
{
    let q = p.skip(n);
    let u = t.skip(m);
    if i == p.len() {
    } else {
        assert(q[i - n] == p[i]);
        if p[i] == '?' {
            if j < t.len() {
                lemma_walk_forgets(p, t, i + 1, j + 1, k, n, m);
            }
        } else if p[i] == '*' {
            if j < t.len() {
                let rest = i + 1 - k;
                assert(u[j - m] == t[j]);
                assert(q.skip(rest - n) =~= p.skip(rest));
                assert(u.skip(j - m) =~= t.skip(j));
                if i + 1 < p.len() {
                    assert(q[i + 1 - n] == p[i + 1]);
                    if p[i + 1] == t[j] {
                        assert(q.skip(rest - 1 - n) =~= p.skip(rest - 1));
                        assert(u.skip(j + 1 - m) =~= t.skip(j + 1));
                        lemma_walk_forgets(p, t, i + 2, j + 1, k + 1, n, m);
                    } else {
                        lemma_index_shift_at(t, p[i + 1], m, j + 1 - m);
                        let at = index_from(t, p[i + 1], j + 1);
                        crate::text::lemma_index_from(t, p[i + 1], j + 1);
                        if at < t.len() {
                            assert(u.skip(at - m) =~= t.skip(at));
                        }
                    }
                }
            }
        } else if j < t.len() {
            assert(u[j - m] == t[j]);
            if p[i] == '\\' && i + 1 - k < p.len() && is_special(p[i + 1 - k]) {
                assert(q[i + 1 - k - n] == p[i + 1 - k]);
                assert(q.skip(i + 2 - k - n) =~= p.skip(i + 2 - k));
                assert(u.skip(j + 1 - m) =~= t.skip(j + 1));
            } else {
                if i + 1 - k < p.len() {
                    assert(q[i + 1 - k - n] == p[i + 1 - k]);
                }
                if p[i] == t[j] {
                    lemma_walk_forgets(p, t, i + 1, j + 1, k, n, m);
                }
            }
        }
    }
}

/// A pattern that begins with `?` matches the targets that have a first
/// character and whose rest matches the rest of the pattern.
pub proof fn lemma_question_mark(p: Seq<char>, t: Seq<char>)
    requires
        p.len() > 0,
        p[0] == '?',
    ensures
        wild_match(p, t) == (t.len() > 0 && wild_match(p.skip(1), t.skip(1))),
{
    if t.len() > 0 {
        lemma_walk_forgets(p, t, 1, 1, 0, 1, 1);
    }
}

/// A pattern that begins with a character other than `?`, `*` and `\`
/// matches the targets that begin with that character and whose rest matches
/// the rest of the pattern.
pub proof fn lemma_plain_head(p: Seq<char>, t: Seq<char>)
    requires
        p.len() > 0,
        !is_special(p[0]),
    ensures
        wild_match(p, t) == (t.len() > 0 && t[0] == p[0] && wild_match(p.skip(1), t.skip(1))),
{
    if t.len() > 0 && t[0] == p[0] {
        lemma_walk_forgets(p, t, 1, 1, 0, 1, 1);
    }
}

/// A pattern that begins with a backslash before `\`, `*` or `?` matches the
/// targets that begin with that character and whose rest matches the rest of
/// the pattern.
pub proof fn lemma_escaped_head(p: Seq<char>, t: Seq<char>)
    requires
        p.len() >= 2,
        p[0] == '\\',
        is_special(p[1]),
    ensures
        wild_match(p, t) == (t.len() > 0 && t[0] == p[1] && wild_match(p.skip(2), t.skip(1))),
{
}

/// A pattern that begins with `*` matches the empty target, whatever follows
/// the star, and a pattern that ends with its first star matches every
/// target.
pub proof fn lemma_star_head(p: Seq<char>, t: Seq<char>)
    requires
        p.len() > 0,
        p[0] == '*',
    ensures
        t.len() == 0 ==> wild_match(p, t),
        p.len() == 1 ==> wild_match(p, t),
        wild_match(p.skip(1), t) ==> wild_match(p, t),
{
    if t.len() > 0 {
        assert(t.skip(0) =~= t);
    }
}

/// The ten digits, as bytes.
pub open spec fn digits() -> Seq<u8> {
    Seq::new(10, |i: int| (48 + i) as u8)
}

/// The lower case letters, as bytes.
pub open spec fn lower_letters() -> Seq<u8> {
    Seq::new(26, |i: int| (97 + i) as u8)
}

/// The upper case letters, as bytes.
pub open spec fn upper_letters() -> Seq<u8> {
    Seq::new(26, |i: int| (65 + i) as u8)
}

/// The numbers that select an alphabet: each digit names a class, 1 the
/// digits, 2 the lower case letters, 3 the upper case letters.
pub open spec fn valid_codes(codes: u8) -> bool {
    codes == 1 || codes == 2 || codes == 3 || codes == 12 || codes == 13 || codes == 23 || codes
        == 123
}

/// The alphabet that `codes` selects.
pub open spec fn alphabet(codes: u8) -> Seq<u8> {
    if codes == 1 {
        digits()
    } else if codes == 2 {
        lower_letters()
    } else if codes == 3 {
        upper_letters()
    } else if codes == 12 {
        digits() + lower_letters()
    } else if codes == 13 {
        digits() + upper_letters()
    } else if codes == 23 {
        lower_letters() + upper_letters()
    } else {
        digits() + lower_letters() + upper_letters()
    }
}

/// One round of mixing: the seed takes up the byte at `i`, two bytes are
/// picked by the seed, and their sum lands in the buffer at `i`, both
/// positions counted round the ends.
pub open spec fn mix_step(bytes: Seq<u8>, st: (usize, Seq<u8>), i: int) -> (usize, Seq<u8>) {
    let bl = bytes.len() as int;
    let fl = st.1.len() as int;
    let seed = st.0.wrapping_add(bytes[i % bl] as usize);
    let bb = bytes[(seed as int) % bl];
    let bj = bytes[(seed.wrapping_add(bb as usize) as int) % bl];
    (seed, st.1.update(i % fl, bb.wrapping_add(bj)))
}

/// The seed and the buffer after `n` rounds, from a seed of `size` and a
/// buffer of `size` zero bytes.
pub open spec fn mix(bytes: Seq<u8>, size: u8, n: nat) -> (usize, Seq<u8>)
    decreases n,
{
    if n == 0 {
        (size as usize, Seq::new(size as nat, |i: int| 0u8))
    } else {
        mix_step(bytes, mix(bytes, size, (n - 1) as nat), n - 1)
    }
}

/// The running value and the letters chosen for the first `n` buffer bytes.
pub open spec fn spell(buf: Seq<u8>, letters: Seq<u8>, size: u8, n: nat) -> (u8, Seq<u8>)
    decreases n,
{
    if n == 0 {
        (size, Seq::<u8>::empty())
    } else {
        let prev = spell(buf, letters, size, (n - 1) as nat);
        let j = (prev.0.wrapping_add(buf[n - 1]) as int) % (letters.len() as int);
        (prev.0.wrapping_add(prev.0.wrapping_sub(j as u8)), prev.1.push(letters[j]))
    }
}

/// The number of mixing rounds for an input of `len` bytes.
pub open spec fn rounds(len: nat, size: u8) -> nat {
    (if len > size { len } else { size as nat }) + size as nat
}

/// The identifier of `size` characters that `bytes` hash to, over the
/// alphabet that `codes` selects.
pub open spec fn hash_spec(bytes: Seq<u8>, size: u8, codes: u8) -> Seq<char> {
    let buf = mix(bytes, size, rounds(bytes.len(), size)).1;
    let out = spell(buf, alphabet(codes), size, size as nat).1;
    Seq::new(size as nat, |i: int| out[i] as char)
}

/// The inputs on which the hash is defined: a known alphabet, and either
/// some bytes and a size above zero, or no bytes and size zero.
pub open spec fn hash_defined(bytes: Seq<u8>, size: u8, codes: u8) -> bool {
    valid_codes(codes) && ((bytes.len() == 0) == (size == 0))
}

proof fn lemma_mix_len(bytes: Seq<u8>, size: u8, n: nat)
    requires
        size > 0 || n == 0,
    ensures
        mix(bytes, size, n).1.len() == size,
    decreases n,
{
    if n > 0 {
        lemma_mix_len(bytes, size, (n - 1) as nat);
        let fl = size as int;
        let i = n - 1;
        assert(0 <= i % fl < fl) by (nonlinear_arith)
            requires
                fl > 0,
                i >= 0,
        ;
    }
}

proof fn lemma_spell_len(buf: Seq<u8>, letters: Seq<u8>, size: u8, n: nat)
    ensures
        spell(buf, letters, size, n).1.len() == n,
    decreases n,
{
    if n > 0 {
        lemma_spell_len(buf, letters, size, (n - 1) as nat);
    }
}

fn push_run(v: &mut Vec<u8>, first: u8, n: u8)
    requires
        first + n <= 255,
    ensures
        final(v)@ == old(v)@ + Seq::new(n as nat, |i: int| (first + i) as u8),
{
    let mut i: u8 = 0;
    while i < n
        invariant
            i <= n,
            first + n <= 255,
            v@ == old(v)@ + Seq::new(i as nat, |k: int| (first + k) as u8),
        decreases n - i,
    {
        v.push(first + i);
        assert(v@ =~= old(v)@ + Seq::new((i + 1) as nat, |k: int| (first + k) as u8));
        i += 1;
    }
}

fn alphabet_of(codes: u8) -> (v: Vec<u8>)
    requires
        valid_codes(codes),
    ensures
        v@ == alphabet(codes),
        v@.len() == 10 || v@.len() == 26 || v@.len() == 36 || v@.len() == 52 || v@.len() == 62,
{
    let mut v: Vec<u8> = Vec::new();
    if codes == 1 || codes == 12 || codes == 13 || codes == 123 {
        push_run(&mut v, 48, 10);
    }
    if codes == 2 || codes == 12 || codes == 23 || codes == 123 {
        push_run(&mut v, 97, 26);
    }
    if codes == 3 || codes == 13 || codes == 23 || codes == 123 {
        push_run(&mut v, 65, 26);
    }
    assert(v@ =~= alphabet(codes));
    v
}

fn next_round(bi: usize, bl: usize) -> (r: usize)
    requires
        bi < bl,
    ensures
        r == (if bi + 1 == bl { 0 } else { bi + 1 }),
{
    if bi + 1 == bl {
        0
    } else {
        bi + 1
    }
}

proof fn lemma_mod_next(i: int, n: int)
    requires
        i >= 0,
        n > 0,
    ensures
        (i + 1) % n == (if i % n + 1 == n { 0 } else { i % n + 1 }),
{
    assert((i + 1) % n == (if i % n + 1 == n { 0 } else { i % n + 1 })) by (nonlinear_arith)
        requires
            i >= 0,
            n > 0,
    ;
}

/// Hashes `bytes` to an identifier of `size` characters.
pub fn hash(bytes: &[u8], size: u8, codes: u8) -> (r: String)
    requires
        hash_defined(bytes@, size, codes),
    ensures
        r@ == hash_spec(bytes@, size, codes),
{
    let letters = alphabet_of(codes);
    let fl: usize = size as usize;
    let bl: usize = bytes.len();
    let mut buf: Vec<u8> = Vec::new();
    let mut z: usize = 0;
    while z < fl
        invariant
            z <= fl,
            buf@ == Seq::new(z as nat, |i: int| 0u8),
        decreases fl - z,
    {
        buf.push(0u8);
        assert(buf@ =~= Seq::new((z + 1) as nat, |i: int| 0u8));
        z += 1;
    }
    let first: usize = if fl > bl { fl } else { bl };
    let mut seed: usize = fl;
    let mut bi: usize = 0;
    let mut fi: usize = 0;
    let ghost mut n: nat = 0;
    let mut phase: u8 = 0;
    let mut left: usize = first;
    // The rounds are counted down in two runs, the longer of the two lengths
    // and then `size` more, so that their number never has to be added up.
    while phase < 2
        invariant
            bl == bytes@.len(),
            fl == size,
            hash_defined(bytes@, size, codes),
            phase <= 2,
            phase == 0 ==> n + left == first,
            phase == 1 ==> n + left == first + fl,
            phase == 2 ==> n == first + fl,
            first == (if fl > bl { fl } else { bl }),
            (seed, buf@) == mix(bytes@, size, n),
            bl > 0 ==> bi == n as int % bl as int,
            fl > 0 ==> fi == n as int % fl as int,
            bl == 0 ==> first + fl == 0,
        decreases 2 - phase, left,
    {
        if left == 0 {
            phase += 1;
            if phase == 1 {
                left = fl;
            }
        } else {
            proof {
                assert(bl > 0 && fl > 0);
                lemma_mix_len(bytes@, size, n);
                lemma_mod_next(n as int, bl as int);
                lemma_mod_next(n as int, fl as int);
            }
            seed = seed.wrapping_add(bytes[bi] as usize);
            let b2: usize = seed % bl;
            let bb: u8 = bytes[b2];
            let b3: usize = seed.wrapping_add(bb as usize) % bl;
            let bj: u8 = bytes[b3];
            buf.set(fi, bb.wrapping_add(bj));
            bi = next_round(bi, bl);
            fi = next_round(fi, fl);
            left -= 1;
            proof {
                n = n + 1;
            }
        }
    }
    assert(n == rounds(bytes@.len(), size));
    let ghost mixed = buf@;
    let mut r: u8 = size;
    let mut out = String::new();
    let mut i: usize = 0;
    proof {
        if size == 0 {
            assert(n == 0);
        }
        lemma_mix_len(bytes@, size, n);
    }
    while i < fl
        invariant
            i <= fl,
            fl == size,
            buf@ == mixed,
            mixed.len() == fl,
            letters@ == alphabet(codes),
            letters@.len() == 10 || letters@.len() == 26 || letters@.len() == 36 || letters@.len()
                == 52 || letters@.len() == 62,
            r == spell(mixed, letters@, size, i as nat).0,
            out@ == Seq::new(
                i as nat,
                |x: int| spell(mixed, letters@, size, size as nat).1[x] as char,
            ),
            forall|x: int|
                0 <= x < i ==> spell(mixed, letters@, size, i as nat).1[x] == spell(
                    mixed,
                    letters@,
                    size,
                    size as nat,
                ).1[x],
        decreases fl - i,
    {
        let b: u8 = buf[i];
        let len8: u8 = letters.len() as u8;
        let j: u8 = r.wrapping_add(b) % len8;
        let letter: u8 = letters[j as usize];
        proof {
            lemma_spell_len(mixed, letters@, size, i as nat);
            lemma_spell_prefix(mixed, letters@, size, (i + 1) as nat, size as nat);
            assert(spell(mixed, letters@, size, (i + 1) as nat).1[i as int] == letter);
        }
        r = r.wrapping_add(r.wrapping_sub(j));
        push_char(&mut out, letter as char);
        proof {
            assert(out@ =~= Seq::new(
                (i + 1) as nat,
                |x: int| spell(mixed, letters@, size, size as nat).1[x] as char,
            ));
            assert forall|x: int| 0 <= x < i + 1 implies spell(
                mixed,
                letters@,
                size,
                (i + 1) as nat,
            ).1[x] == spell(mixed, letters@, size, size as nat).1[x] by {
                lemma_spell_prefix(mixed, letters@, size, (i + 1) as nat, size as nat);
            }
        }
        i += 1;
    }
    assert(out@ =~= hash_spec(bytes@, size, codes));
    out
}

/// The letters chosen for the first `n` bytes stay as they are when more
/// bytes follow.
proof fn lemma_spell_prefix(buf: Seq<u8>, letters: Seq<u8>, size: u8, n: nat, m: nat)
    requires
        n <= m,
    ensures
        spell(buf, letters, size, m).1.len() == m,
        spell(buf, letters, size, n).1.len() == n,
        forall|x: int|
            0 <= x < n ==> spell(buf, letters, size, n).1[x] == spell(buf, letters, size, m).1[x],
    decreases m,
{
    lemma_spell_len(buf, letters, size, n);
    lemma_spell_len(buf, letters, size, m);
    if n < m {
        lemma_spell_prefix(buf, letters, size, n, (m - 1) as nat);
        lemma_spell_len(buf, letters, size, (m - 1) as nat);
    }
}

} // verus!
