//! The pairing resolver: parses a bracket-notation structure string into a
//! symmetric base-pair table.
//!
//! The string may use several independently-tracked bracket alphabets
//! ("channels"): the four conventional bracket pairs plus the paired-case
//! letters `A`/`a` … `Z`/`z`, which encode additional, possibly crossing,
//! pairs.  Every other symbol is an unpaired column.  One stack per channel
//! scans the columns left to right; a closer with an empty stack, or an
//! opener never closed, is reported as a malformed column rather than a
//! failure, and the best-effort table keeps every pair that did match.

use vstd::prelude::*;

verus! {

/// Number of pairing channels: `(`, `[`, `{`, `<`, and the 26 letter pairs.
pub const CHANNEL_COUNT: usize = 30;

/// The channel opened by `c`, or -1 when `c` opens nothing.
pub open spec fn open_channel(c: char) -> int {
    if c == '(' {
        0
    } else if c == '[' {
        1
    } else if c == '{' {
        2
    } else if c == '<' {
        3
    } else if 'A' as u32 <= c as u32 && c as u32 <= 'Z' as u32 {
        4 + c as u32 - 'A' as u32
    } else {
        -1
    }
}

/// The channel closed by `c`, or -1 when `c` closes nothing.
pub open spec fn close_channel(c: char) -> int {
    if c == ')' {
        0
    } else if c == ']' {
        1
    } else if c == '}' {
        2
    } else if c == '>' {
        3
    } else if 'a' as u32 <= c as u32 && c as u32 <= 'z' as u32 {
        4 + c as u32 - 'a' as u32
    } else {
        -1
    }
}

/// State of the left-to-right scan: one stack of open columns per channel,
/// the pairs recorded so far (both directions), and the columns of
/// unmatched closers in scan order.
#[verifier::ext_equal]
pub ghost struct ScanState {
    pub stacks: Seq<Seq<int>>,
    pub pairs: Map<int, int>,
    pub malformed: Seq<int>,
}

/// The scan before any column: all stacks empty, nothing paired.
pub open spec fn scan_init() -> ScanState {
    ScanState {
        stacks: Seq::new(CHANNEL_COUNT as nat, |c: int| Seq::empty()),
        pairs: Map::empty(),
        malformed: Seq::empty(),
    }
}

/// One column of the scan: push an opener, match a closer against its own
/// channel's stack (recording the pair, or the column as malformed when the
/// stack is empty), and ignore every other symbol.
pub open spec fn scan_step(st: ScanState, c: char, col: int) -> ScanState {
    if open_channel(c) >= 0 {
        let ch = open_channel(c);
        ScanState { stacks: st.stacks.update(ch, st.stacks[ch].push(col)), ..st }
    } else if close_channel(c) >= 0 {
        let ch = close_channel(c);
        if st.stacks[ch].len() > 0 {
            let opener = st.stacks[ch].last();
            ScanState {
                stacks: st.stacks.update(ch, st.stacks[ch].drop_last()),
                pairs: st.pairs.insert(opener, col).insert(col, opener),
                malformed: st.malformed,
            }
        } else {
            ScanState { malformed: st.malformed.push(col), ..st }
        }
    } else {
        st
    }
}

/// The scan state after the first `k` columns of `s`.
pub open spec fn scan_prefix(s: Seq<char>, k: int) -> ScanState
    decreases k,
{
    if k <= 0 {
        scan_init()
    } else {
        scan_step(scan_prefix(s, k - 1), s[k - 1], k - 1)
    }
}

/// The scan state after the whole of `s`.
pub open spec fn scan_result(s: Seq<char>) -> ScanState {
    scan_prefix(s, s.len() as int)
}

/// The columns still waiting on the first `n` stacks when the scan ends:
/// unmatched openers, reported channel by channel.
pub open spec fn leftover_openers(stacks: Seq<Seq<int>>, n: int) -> Seq<int>
    decreases n,
{
    if n <= 0 {
        Seq::empty()
    } else {
        leftover_openers(stacks, n - 1) + stacks[n - 1]
    }
}

/// Every malformed column of `s`: unmatched closers in scan order, then
/// unmatched openers channel by channel.
pub open spec fn malformed_columns(s: Seq<char>) -> Seq<int> {
    scan_result(s).malformed + leftover_openers(scan_result(s).stacks, CHANNEL_COUNT as int)
}

/// Does `t` record exactly the pairs that the scan of `s` matched?
pub open spec fn table_matches(t: Seq<Option<usize>>, s: Seq<char>) -> bool {
    &&& t.len() == s.len()
    &&& forall|i: int|
        0 <= i < t.len() ==> match #[trigger] t[i] {
            Some(j) => scan_result(s).pairs.dom().contains(i) && scan_result(s).pairs[i] == j as int,
            None => !scan_result(s).pairs.dom().contains(i),
        }
}

/// Everything the scan maintains, column by column: stack entries are
/// in-range unpaired openers of their own channel in increasing order, and
/// the recorded pairs form a symmetric, irreflexive, channel-respecting
/// partial pairing of the columns seen so far.
pub open spec fn state_inv(st: ScanState, s: Seq<char>, col: int) -> bool {
    &&& st.stacks.len() == CHANNEL_COUNT as int
    &&& (forall|c: int, k: int|
        0 <= c < CHANNEL_COUNT as int && 0 <= k < st.stacks[c].len() ==> {
            &&& 0 <= #[trigger] st.stacks[c][k] < col
            &&& open_channel(s[st.stacks[c][k]]) == c
            &&& !st.pairs.dom().contains(st.stacks[c][k])
        })
    &&& (forall|c: int, k1: int, k2: int|
        0 <= c < CHANNEL_COUNT as int && 0 <= k1 < k2 < st.stacks[c].len()
            ==> #[trigger] st.stacks[c][k1] < #[trigger] st.stacks[c][k2])
    &&& (forall|i: int|
        #[trigger] st.pairs.dom().contains(i) ==> {
            &&& 0 <= i < col
            &&& st.pairs.dom().contains(st.pairs[i])
            &&& st.pairs[st.pairs[i]] == i
            &&& st.pairs[i] != i
            &&& 0 <= st.pairs[i] < col
            &&& (i < st.pairs[i] ==> open_channel(s[i]) >= 0 && open_channel(s[i])
                == close_channel(s[st.pairs[i]]))
        })
    &&& (forall|k: int| 0 <= k < st.malformed.len() ==> 0 <= #[trigger] st.malformed[k] < col)
}

/// The scan invariant holds after every prefix.
pub proof fn lemma_scan_inv(s: Seq<char>, k: int)
    requires
        0 <= k <= s.len(),
    ensures
        state_inv(scan_prefix(s, k), s, k),
    decreases k,
{
    if k == 0 {
    } else {
        lemma_scan_inv(s, k - 1);
        let st = scan_prefix(s, k - 1);
        let c = s[k - 1];
        let col = k - 1;
        let st2 = scan_step(st, c, col);
        if open_channel(c) >= 0 {
            let ch = open_channel(c);
            assert(st2.stacks[ch] == st.stacks[ch].push(col));
            assert forall|c2: int, k2: int|
                0 <= c2 < CHANNEL_COUNT as int && 0 <= k2 < st2.stacks[c2].len() implies {
                &&& 0 <= #[trigger] st2.stacks[c2][k2] < k
                &&& open_channel(s[st2.stacks[c2][k2]]) == c2
                &&& !st2.pairs.dom().contains(st2.stacks[c2][k2])
            } by {
                if c2 == ch && k2 == st.stacks[ch].len() {
                    assert(st2.stacks[c2][k2] == col);
                } else {
                    assert(st2.stacks[c2][k2] == st.stacks[c2][k2]);
                }
            }
            assert forall|c2: int, k1: int, k2: int|
                0 <= c2 < CHANNEL_COUNT as int && 0 <= k1 < k2 < st2.stacks[c2].len() implies
                #[trigger] st2.stacks[c2][k1] < #[trigger] st2.stacks[c2][k2] by {
                if c2 == ch && k2 == st.stacks[ch].len() {
                    assert(st2.stacks[c2][k1] == st.stacks[c2][k1]);
                    assert(st2.stacks[c2][k2] == col);
                } else {
                    assert(st2.stacks[c2][k1] == st.stacks[c2][k1]);
                    assert(st2.stacks[c2][k2] == st.stacks[c2][k2]);
                }
            }
        } else if close_channel(c) >= 0 {
            let ch = close_channel(c);
            if st.stacks[ch].len() > 0 {
                let opener = st.stacks[ch].last();
                assert(st.stacks[ch][st.stacks[ch].len() - 1] == opener);
                assert(0 <= opener < col);
                assert(open_channel(s[opener]) == ch);
                assert(!st.pairs.dom().contains(opener));
                assert(!st.pairs.dom().contains(col));
                let p2 = st.pairs.insert(opener, col).insert(col, opener);
                assert forall|i: int| #[trigger] p2.dom().contains(i) implies {
                    &&& 0 <= i < k
                    &&& p2.dom().contains(p2[i])
                    &&& p2[p2[i]] == i
                    &&& p2[i] != i
                    &&& 0 <= p2[i] < k
                    &&& (i < p2[i] ==> open_channel(s[i]) >= 0 && open_channel(s[i])
                        == close_channel(s[p2[i]]))
                } by {
                    if i == opener {
                        assert(p2[opener] == col);
                        assert(p2[col] == opener);
                    } else if i == col {
                        assert(p2[col] == opener);
                        assert(p2[opener] == col);
                    } else {
                        assert(st.pairs.dom().contains(i));
                        assert(p2[i] == st.pairs[i]);
                        assert(st.pairs[i] != opener);
                        assert(st.pairs[i] != col);
                        assert(p2[st.pairs[i]] == st.pairs[st.pairs[i]]);
                    }
                }
                assert forall|c2: int, k2: int|
                    0 <= c2 < CHANNEL_COUNT as int && 0 <= k2 < st2.stacks[c2].len() implies {
                    &&& 0 <= #[trigger] st2.stacks[c2][k2] < k
                    &&& open_channel(s[st2.stacks[c2][k2]]) == c2
                    &&& !st2.pairs.dom().contains(st2.stacks[c2][k2])
                } by {
                    assert(st2.stacks[c2][k2] == st.stacks[c2][k2]);
                    let e = st.stacks[c2][k2];
                    if c2 == ch {
                        assert(st.stacks[ch][k2] < st.stacks[ch][st.stacks[ch].len() - 1]);
                        assert(e != opener);
                    } else {
                        assert(open_channel(s[e]) == c2);
                        assert(e != opener);
                    }
                    assert(e != col);
                    assert(!st.pairs.dom().contains(e));
                }
                assert forall|c2: int, k1: int, k2: int|
                    0 <= c2 < CHANNEL_COUNT as int && 0 <= k1 < k2 < st2.stacks[c2].len() implies
                    #[trigger] st2.stacks[c2][k1] < #[trigger] st2.stacks[c2][k2] by {
                    assert(st2.stacks[c2][k1] == st.stacks[c2][k1]);
                    assert(st2.stacks[c2][k2] == st.stacks[c2][k2]);
                }
            }
        }
    }
}

/// How one symbol takes part in pairing: it opens a channel, closes one,
/// or marks an unpaired column.
pub enum SymbolClass {
    Opening(usize),
    Closing(usize),
    Unpaired,
}

/// Classify one structure symbol into its pairing channel.
pub fn classify(c: char) -> (r: SymbolClass)
    ensures
        (match r {
            SymbolClass::Opening(ch) => open_channel(c) == ch as int && ch < CHANNEL_COUNT,
            SymbolClass::Closing(ch) => close_channel(c) == ch as int && ch < CHANNEL_COUNT,
            SymbolClass::Unpaired => open_channel(c) == -1 && close_channel(c) == -1,
        }),
{
    if c == '(' {
        SymbolClass::Opening(0)
    } else if c == '[' {
        SymbolClass::Opening(1)
    } else if c == '{' {
        SymbolClass::Opening(2)
    } else if c == '<' {
        SymbolClass::Opening(3)
    } else if c == ')' {
        SymbolClass::Closing(0)
    } else if c == ']' {
        SymbolClass::Closing(1)
    } else if c == '}' {
        SymbolClass::Closing(2)
    } else if c == '>' {
        SymbolClass::Closing(3)
    } else {
        let u = c as u32;
        if 65 <= u && u <= 90 {
            SymbolClass::Opening((u - 65 + 4) as usize)
        } else if 97 <= u && u <= 122 {
            SymbolClass::Closing((u - 97 + 4) as usize)
        } else {
            SymbolClass::Unpaired
        }
    }
}

/// A symmetric base-pair table: `pairs[i]` is the partner column of `i`,
/// or nothing when column `i` is unpaired.
pub struct PairTable {
    pub pairs: Vec<Option<usize>>,
}

/// What the resolver reports: the best-effort pair table together with the
/// malformed columns (unmatched closers, then unmatched openers).
pub struct Resolution {
    pub table: PairTable,
    pub malformed: Vec<usize>,
}

/// Parse a bracket-notation structure string into its base-pair table.
/// Never fails: unmatched symbols are reported in `malformed` while every
/// matched pair stays in the table.
pub fn resolve(structure: &Vec<char>) -> (r: Resolution)
    ensures
        table_matches(r.table.pairs@, structure@),
        r.malformed@.map_values(|x: usize| x as int) == malformed_columns(structure@),
{
    let n = structure.len();
    let ghost s = structure@;
    let mut table: Vec<Option<usize>> = Vec::new();
    let mut t: usize = 0;
    while t < n
        invariant
            t <= n,
            table@.len() == t as int,
            forall|i: int| 0 <= i < t ==> table@[i] is None,
        decreases n - t,
    {
        table.push(None);
        t += 1;
    }
    let mut stacks: Vec<Vec<usize>> = Vec::new();
    let mut q: usize = 0;
    while q < CHANNEL_COUNT
        invariant
            q <= CHANNEL_COUNT,
            stacks@.len() == q as int,
            forall|c: int| 0 <= c < q ==> (#[trigger] stacks@[c])@.len() == 0,
        decreases CHANNEL_COUNT - q,
    {
        stacks.push(Vec::new());
        q += 1;
    }
    let mut malformed: Vec<usize> = Vec::new();
    let mut col: usize = 0;
    proof {
        let st0 = scan_prefix(s, 0);
        assert forall|c: int| 0 <= c < CHANNEL_COUNT as int implies (
        #[trigger] stacks@[c])@.map_values(|x: usize| x as int) =~= st0.stacks[c] by {}
        assert(malformed@.map_values(|x: usize| x as int) =~= st0.malformed);
    }
    while col < n
        invariant
            s == structure@,
            n == s.len(),
            col <= n,
            stacks@.len() == CHANNEL_COUNT as int,
            table@.len() == n as int,
            ({
                let st = scan_prefix(s, col as int);
                &&& forall|c: int|
                    0 <= c < CHANNEL_COUNT as int ==> (#[trigger] stacks@[c])@.map_values(
                        |x: usize| x as int,
                    ) == st.stacks[c]
                &&& malformed@.map_values(|x: usize| x as int) == st.malformed
                &&& forall|i: int|
                    0 <= i < n ==> match #[trigger] table@[i] {
                        Some(j) => st.pairs.dom().contains(i) && st.pairs[i] == j as int,
                        None => !st.pairs.dom().contains(i),
                    }
            }),
        decreases n - col,
    {
        let ghost st = scan_prefix(s, col as int);
        let ghost st2 = scan_prefix(s, col as int + 1);
        proof {
            lemma_scan_inv(s, col as int);
            assert(st2 == scan_step(st, s[col as int], col as int));
        }
        let c = structure[col];
        match classify(c) {
            SymbolClass::Opening(ch) => {
                stacks[ch].push(col);
                proof {
                    assert(stacks@[ch as int]@.map_values(|x: usize| x as int) =~= st.stacks[
                        ch as int].push(col as int));
                }
            },
            SymbolClass::Closing(ch) => {
                let popped = stacks[ch].pop();
                match popped {
                    Some(opener) => {
                        proof {
                            assert(st.stacks[ch as int].len() > 0);
                            assert(opener as int == st.stacks[ch as int].last());
                            assert(0 <= st.stacks[ch as int].last() < col as int);
                            assert(stacks@[ch as int]@.map_values(|x: usize| x as int)
                                =~= st.stacks[ch as int].drop_last());
                        }
                        table[opener] = Some(col);
                        table[col] = Some(opener);
                        proof {
                            let p2 = st.pairs.insert(opener as int, col as int).insert(
                                col as int,
                                opener as int,
                            );
                            assert(st2.pairs == p2);
                            assert forall|i: int| 0 <= i < n implies match #[trigger] table@[i] {
                                Some(j) => p2.dom().contains(i) && p2[i] == j as int,
                                None => !p2.dom().contains(i),
                            } by {
                                if i == opener as int {
                                    assert(p2[i] == col as int);
                                } else if i == col as int {
                                    assert(p2[i] == opener as int);
                                } else {
                                    assert(p2.dom().contains(i) == st.pairs.dom().contains(i));
                                }
                            }
                        }
                    },
                    None => {
                        malformed.push(col);
                        proof {
                            assert(st.stacks[ch as int].len() == 0);
                            assert(malformed@.map_values(|x: usize| x as int) =~= st.malformed.push(
                                col as int,
                            ));
                        }
                    },
                }
            },
            SymbolClass::Unpaired => {
                proof {
                    assert(st2 == st);
                }
            },
        }
        col += 1;
    }
    let mut ch: usize = 0;
    proof {
        lemma_scan_inv(s, n as int);
        assert(malformed@.map_values(|x: usize| x as int) =~= scan_result(s).malformed
            + leftover_openers(scan_result(s).stacks, 0));
    }
    while ch < CHANNEL_COUNT
        invariant
            s == structure@,
            n == s.len(),
            stacks@.len() == CHANNEL_COUNT as int,
            ch <= CHANNEL_COUNT,
            forall|c: int|
                0 <= c < CHANNEL_COUNT as int ==> (#[trigger] stacks@[c])@.map_values(
                    |x: usize| x as int,
                ) == scan_result(s).stacks[c],
            malformed@.map_values(|x: usize| x as int) == scan_result(s).malformed
                + leftover_openers(scan_result(s).stacks, ch as int),
        decreases CHANNEL_COUNT - ch,
    {
        let mut k: usize = 0;
        while k < stacks[ch].len()
            invariant
                s == structure@,
                n == s.len(),
                stacks@.len() == CHANNEL_COUNT as int,
                ch < CHANNEL_COUNT,
                k <= stacks@[ch as int]@.len(),
                forall|c: int|
                    0 <= c < CHANNEL_COUNT as int ==> (#[trigger] stacks@[c])@.map_values(
                        |x: usize| x as int,
                    ) == scan_result(s).stacks[c],
                malformed@.map_values(|x: usize| x as int) == scan_result(s).malformed
                    + leftover_openers(scan_result(s).stacks, ch as int) + scan_result(
                    s,
                ).stacks[ch as int].take(k as int),
            decreases stacks@[ch as int]@.len() - k,
        {
            let v = stacks[ch][k];
            malformed.push(v);
            proof {
                lemma_scan_inv(s, n as int);
                assert(v as int == scan_result(s).stacks[ch as int][k as int]);
                let a = scan_result(s).malformed;
                let b = leftover_openers(scan_result(s).stacks, ch as int);
                let c = scan_result(s).stacks[ch as int];
                assert(malformed@.map_values(|x: usize| x as int) =~= (a + b + c.take(
                    k as int,
                )).push(v as int));
                assert((a + b + c.take(k as int)).push(v as int) =~= a + b + c.take(k as int + 1));
            }
            k += 1;
        }
        proof {
            lemma_scan_inv(s, n as int);
            assert(scan_result(s).stacks[ch as int].take(stacks@[ch as int]@.len() as int)
                =~= scan_result(s).stacks[ch as int]);
            assert(malformed@.map_values(|x: usize| x as int) =~= scan_result(s).malformed
                + leftover_openers(scan_result(s).stacks, ch as int + 1));
        }
        ch += 1;
    }
    proof {
        assert(malformed@.map_values(|x: usize| x as int) =~= malformed_columns(s));
    }
    Resolution { table: PairTable { pairs: table }, malformed }
}

/// The partner of column `i` under the structure string `s`, if the scan
/// matched `i` with anything.
pub open spec fn spec_pair(s: Seq<char>, i: int) -> Option<int> {
    if 0 <= i < s.len() && scan_result(s).pairs.dom().contains(i) {
        Some(scan_result(s).pairs[i])
    } else {
        None
    }
}

/// Pairing symmetry: if column `i` pairs with `j`, then `j` pairs with `i`.
pub proof fn lemma_pairing_symmetric(s: Seq<char>, i: int, j: int)
    requires
        spec_pair(s, i) == Some(j),
    ensures
        spec_pair(s, j) == Some(i),
{
    lemma_pair_map_properties(s);
}

/// Pairing channel isolation: a pair always joins an opener with the
/// closer of the same channel; channels never cross-match, and no column
/// pairs with itself.
pub proof fn lemma_pairing_channel_isolation(s: Seq<char>, i: int, j: int)
    requires
        spec_pair(s, i) == Some(j),
        i < j,
    ensures
        open_channel(s[i]) >= 0,
        open_channel(s[i]) == close_channel(s[j]),
        i != j,
{
    lemma_pair_map_properties(s);
}

/// The scan's pair map only relates columns of the string, symmetrically,
/// never a column to itself, and never across channels: the smaller column
/// of every pair opens exactly the channel that the larger one closes.
pub proof fn lemma_pair_map_properties(s: Seq<char>)
    ensures
        forall|i: int|
            #[trigger] scan_result(s).pairs.dom().contains(i) ==> {
                let p = scan_result(s).pairs;
                &&& 0 <= i < s.len()
                &&& p.dom().contains(p[i])
                &&& p[p[i]] == i
                &&& p[i] != i
                &&& 0 <= p[i] < s.len()
                &&& (i < p[i] ==> open_channel(s[i]) >= 0 && open_channel(s[i]) == close_channel(
                    s[p[i]],
                ))
            },
{
    lemma_scan_inv(s, s.len() as int);
}

/// The structure string restricted to one channel: every symbol of any
/// other channel becomes an unpaired column.
pub open spec fn channel_only(s: Seq<char>, c: int) -> Seq<char> {
    Seq::new(
        s.len(),
        |i: int|
            if open_channel(s[i]) == c || close_channel(s[i]) == c {
                s[i]
            } else {
                '.'
            },
    )
}

/// The columns of `s` that carry a symbol of channel `c`.
pub open spec fn channel_columns(s: Seq<char>, c: int) -> Set<int> {
    Set::new(|i: int| 0 <= i < s.len() && (open_channel(s[i]) == c || close_channel(s[i]) == c))
}

/// The channel-restricted scan tracks the full scan exactly on channel
/// `c`: the same stack, and exactly the pairs between channel-`c` columns.
pub proof fn lemma_channel_scan(s: Seq<char>, c: int, k: int)
    requires
        0 <= c < CHANNEL_COUNT as int,
        0 <= k <= s.len(),
    ensures
        ({
            let st = scan_prefix(s, k);
            let stm = scan_prefix(channel_only(s, c), k);
            &&& stm.stacks[c] == st.stacks[c]
            &&& forall|c2: int|
                0 <= c2 < CHANNEL_COUNT as int && c2 != c ==> (#[trigger] stm.stacks[c2]).len()
                    == 0
            &&& stm.pairs == st.pairs.restrict(channel_columns(s, c))
        }),
    decreases k,
{
    let m = channel_only(s, c);
    let cols = channel_columns(s, c);
    if k == 0 {
        assert(scan_prefix(s, 0).pairs.restrict(cols) =~= scan_prefix(m, 0).pairs);
    } else {
        lemma_channel_scan(s, c, k - 1);
        lemma_scan_inv(s, k - 1);
        lemma_scan_inv(m, k - 1);
        let st = scan_prefix(s, k - 1);
        let stm = scan_prefix(m, k - 1);
        let st2 = scan_prefix(s, k);
        let stm2 = scan_prefix(m, k);
        let ch = s[k - 1];
        let col = k - 1;
        assert(st2 == scan_step(st, ch, col));
        assert(stm2 == scan_step(stm, m[col], col));
        if open_channel(ch) == c {
            assert(m[col] == ch);
            assert(stm2.stacks[c] == stm.stacks[c].push(col));
            assert(st2.stacks[c] == st.stacks[c].push(col));
            assert forall|c2: int|
                0 <= c2 < CHANNEL_COUNT as int && c2 != c implies (
            #[trigger] stm2.stacks[c2]).len() == 0 by {
                assert(stm2.stacks[c2] == stm.stacks[c2]);
            }
            assert(stm2.pairs =~= st2.pairs.restrict(cols));
        } else if open_channel(ch) >= 0 {
            assert(m[col] == '.');
            assert(stm2 == stm);
            assert(st2.stacks[c] == st.stacks[c]);
            assert(stm2.pairs =~= st2.pairs.restrict(cols));
        } else if close_channel(ch) == c {
            assert(m[col] == ch);
            if st.stacks[c].len() > 0 {
                let opener = st.stacks[c].last();
                assert(st.stacks[c][st.stacks[c].len() - 1] == opener);
                assert(open_channel(s[opener]) == c);
                assert(cols.contains(opener));
                assert(cols.contains(col));
                assert(!st.pairs.dom().contains(opener));
                assert(stm2.stacks[c] == stm.stacks[c].drop_last());
                assert(st2.stacks[c] == st.stacks[c].drop_last());
                assert forall|c2: int|
                    0 <= c2 < CHANNEL_COUNT as int && c2 != c implies (
                #[trigger] stm2.stacks[c2]).len() == 0 by {
                    assert(stm2.stacks[c2] == stm.stacks[c2]);
                }
                assert(stm2.pairs =~= st2.pairs.restrict(cols));
            } else {
                assert(stm2.stacks[c] == stm.stacks[c]);
                assert(st2.stacks[c] == st.stacks[c]);
                assert(stm2.pairs =~= st2.pairs.restrict(cols));
            }
        } else if close_channel(ch) >= 0 {
            let c2 = close_channel(ch);
            assert(m[col] == '.');
            assert(!cols.contains(col));
            assert(stm2 == stm);
            if st.stacks[c2].len() > 0 {
                let opener = st.stacks[c2].last();
                assert(st.stacks[c2][st.stacks[c2].len() - 1] == opener);
                assert(open_channel(s[opener]) == c2);
                assert(!cols.contains(opener));
                assert(st2.stacks[c] == st.stacks[c]);
                assert(stm2.pairs =~= st2.pairs.restrict(cols));
            } else {
                assert(st2.stacks[c] == st.stacks[c]);
                assert(stm2.pairs =~= st2.pairs.restrict(cols));
            }
        } else {
            assert(m[col] == '.');
            assert(stm2 == stm);
            assert(st2 == st);
            assert(stm2.pairs =~= st2.pairs.restrict(cols));
        }
    }
}

/// Pairing channel decomposition: the pairs the full string matches
/// between channel-`c` columns are exactly the pairs of the string with
/// every other channel blanked out.  Together with the channel-agreement
/// law this says each channel pairs independently of all the others.
pub proof fn lemma_channel_decomposition(s: Seq<char>, c: int)
    requires
        0 <= c < CHANNEL_COUNT as int,
    ensures
        scan_result(channel_only(s, c)).pairs == scan_result(s).pairs.restrict(
            channel_columns(s, c),
        ),
{
    lemma_channel_scan(s, c, s.len() as int);
}

} // verus!
