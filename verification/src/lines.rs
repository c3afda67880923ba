//! Splitting a streamed standard-output byte sequence into lines.
//!
//! A streaming invocation delivers stdout to the caller one line at a time,
//! in emission order. A line ends at a newline byte; a carriage return
//! immediately before the newline is not part of the line; bytes after the
//! last newline form a final fragment that is delivered as written when the
//! stream closes.
//!
//! [`lines_of`] states this splitting directly; [`scan`] states it as a left
//! fold over the bytes, which is how the incremental [`LineScanner`] consumes
//! a stream chunk by chunk. [`lemma_scan_lines`] proves the two agree, so the
//! scanner's contracts speak of the direct definition.

use vstd::prelude::*;
use crate::decode::{decode_lossy, lossy_text_of};

verus! {

/// A completed line with a trailing carriage return removed.
pub open spec fn strip_cr(line: Seq<u8>) -> Seq<u8> {
    if line.len() > 0 && line.last() == 13u8 {
        line.drop_last()
    } else {
        line
    }
}

/// The index of the first newline byte of `s`, or `s.len()` if there is
/// none.
pub open spec fn first_nl(s: Seq<u8>) -> nat
    decreases s.len(),
{
    if s.len() == 0 {
        0
    } else if s[0] == 10u8 {
        0
    } else {
        1 + first_nl(s.skip(1))
    }
}

pub proof fn lemma_first_nl(s: Seq<u8>)
    ensures
        first_nl(s) <= s.len(),
        forall|j: int| 0 <= j < first_nl(s) ==> s[j] != 10u8,
        first_nl(s) < s.len() ==> s[first_nl(s) as int] == 10u8,
    decreases s.len(),
{
    if s.len() == 0 {
    } else if s[0] == 10u8 {
    } else {
        lemma_first_nl(s.skip(1));
        assert forall|j: int| 0 <= j < first_nl(s) implies s[j] != 10u8 by {
            if j > 0 {
                assert(s.skip(1)[j - 1] == s[j]);
            }
        }
        if first_nl(s) < s.len() {
            assert(s.skip(1)[first_nl(s) - 1] == s[first_nl(s) as int]);
        }
    }
}

/// `first_nl` is determined by its characterisation: the first newline-free
/// prefix length.
pub proof fn lemma_first_nl_is(s: Seq<u8>, k: nat)
    requires
        k <= s.len(),
        forall|j: int| 0 <= j < k ==> s[j] != 10u8,
        k < s.len() ==> s[k as int] == 10u8,
    ensures
        first_nl(s) == k,
{
    lemma_first_nl(s);
    if first_nl(s) < k {
        assert(s[first_nl(s) as int] != 10u8);
    } else if k < first_nl(s) {
        assert(s[k as int] != 10u8);
    }
}

#[via_fn]
proof fn lines_of_decreases(s: Seq<u8>) {
    lemma_first_nl(s);
}

/// The lines of a byte stream, in emission order: one line per newline byte,
/// each without its terminator and without a carriage return immediately
/// before that terminator, followed by the bytes after the last newline as a
/// final fragment if there are any.
pub open spec fn lines_of(s: Seq<u8>) -> Seq<Seq<u8>>
    decreases s.len(),
    via lines_of_decreases
{
    if s.len() == 0 {
        Seq::empty()
    } else {
        let i = first_nl(s);
        if i == s.len() {
            seq![s]
        } else {
            seq![strip_cr(s.take(i as int))] + lines_of(s.skip(i as int + 1))
        }
    }
}

/// The views of a sequence of delivered strings.
pub open spec fn views_of(ts: Seq<String>) -> Seq<Seq<char>> {
    ts.map_values(|t: String| t@)
}

/// A sequence of raw lines as the caller receives them: each decoded.
pub open spec fn decoded_lines(ls: Seq<Seq<u8>>) -> Seq<Seq<char>> {
    ls.map_values(|l: Seq<u8>| lossy_text_of(l))
}

/// The lines of a stream decoded as the caller receives them.
pub open spec fn stream_lines(s: Seq<u8>) -> Seq<Seq<char>> {
    decoded_lines(lines_of(s))
}

/// One left-fold step of line splitting: `acc` holds the lines completed so
/// far, `pend` the bytes of the line in progress, and `s` the input still to
/// read.
pub open spec fn scan(acc: Seq<Seq<u8>>, pend: Seq<u8>, s: Seq<u8>) -> (Seq<Seq<u8>>, Seq<u8>)
    decreases s.len(),
{
    if s.len() == 0 {
        (acc, pend)
    } else if s[0] == 10u8 {
        scan(acc.push(strip_cr(pend)), Seq::empty(), s.skip(1))
    } else {
        scan(acc, pend.push(s[0]), s.skip(1))
    }
}

/// The accumulator only collects: scanning appends to it.
pub proof fn lemma_scan_acc(acc: Seq<Seq<u8>>, pend: Seq<u8>, s: Seq<u8>)
    ensures
        scan(acc, pend, s).0 == acc + scan(Seq::empty(), pend, s).0,
        scan(acc, pend, s).1 == scan(Seq::empty(), pend, s).1,
    decreases s.len(),
{
    if s.len() == 0 {
        assert(acc + Seq::<Seq<u8>>::empty() =~= acc);
    } else if s[0] == 10u8 {
        lemma_scan_acc(acc.push(strip_cr(pend)), Seq::empty(), s.skip(1));
        lemma_scan_acc(seq![strip_cr(pend)], Seq::empty(), s.skip(1));
        assert(acc.push(strip_cr(pend)) + scan(Seq::empty(), Seq::empty(), s.skip(1)).0 =~= acc + (
        seq![strip_cr(pend)] + scan(Seq::empty(), Seq::empty(), s.skip(1)).0));
        assert(Seq::<Seq<u8>>::empty().push(strip_cr(pend)) =~= seq![strip_cr(pend)]);
    } else {
        lemma_scan_acc(acc, pend.push(s[0]), s.skip(1));
    }
}

/// Scanning a concatenation scans the first part, then the second from the
/// state the first part left behind.
pub proof fn lemma_scan_concat(acc: Seq<Seq<u8>>, pend: Seq<u8>, a: Seq<u8>, b: Seq<u8>)
    ensures
        scan(acc, pend, a + b) == scan(scan(acc, pend, a).0, scan(acc, pend, a).1, b),
    decreases a.len(),
{
    if a.len() == 0 {
        assert(a + b =~= b);
    } else {
        assert((a + b)[0] == a[0]);
        assert((a + b).skip(1) =~= a.skip(1) + b);
        if a[0] == 10u8 {
            lemma_scan_concat(acc.push(strip_cr(pend)), Seq::empty(), a.skip(1), b);
        } else {
            lemma_scan_concat(acc, pend.push(a[0]), a.skip(1), b);
        }
    }
}

/// The final fragment a scan leaves behind, as the lines it still stands
/// for: one line if it is non-empty, none if it is empty.
pub open spec fn fragment_lines(pend: Seq<u8>) -> Seq<Seq<u8>> {
    if pend.len() == 0 {
        Seq::empty()
    } else {
        seq![pend]
    }
}

/// Law: the left fold agrees with the direct definition. Scanning input `s`
/// from a line in progress `pend` completes exactly the lines of `pend + s`,
/// except for the final fragment, which it leaves in progress.
pub proof fn lemma_scan_lines(pend: Seq<u8>, s: Seq<u8>)
    requires
        !pend.contains(10u8),
    ensures
        scan(Seq::empty(), pend, s).0 + fragment_lines(scan(Seq::empty(), pend, s).1) == lines_of(
            pend + s,
        ),
    decreases s.len(),
{
    lemma_first_nl(pend + s);
    if s.len() == 0 {
        assert(pend + s =~= pend);
        if pend.len() == 0 {
            assert(Seq::<Seq<u8>>::empty() + fragment_lines(pend) =~= lines_of(pend));
        } else {
            assert forall|j: int| 0 <= j < pend.len() implies pend[j] != 10u8 by {
                assert(!(pend[j] == 10u8)) by {
                    if pend[j] == 10u8 {
                        assert(pend.contains(10u8));
                    }
                }
            }
            lemma_first_nl_is(pend, pend.len() as nat);
            assert(lines_of(pend) =~= seq![pend]);
            assert(Seq::<Seq<u8>>::empty() + fragment_lines(pend) =~= seq![pend]);
        }
    } else if s[0] == 10u8 {
        let rest = s.skip(1);
        lemma_scan_acc(Seq::<Seq<u8>>::empty().push(strip_cr(pend)), Seq::empty(), rest);
        lemma_scan_acc(seq![strip_cr(pend)], Seq::empty(), rest);
        assert(Seq::<Seq<u8>>::empty().push(strip_cr(pend)) =~= seq![strip_cr(pend)]);
        lemma_scan_lines(Seq::empty(), rest);
        assert(Seq::<u8>::empty() + rest =~= rest);
        // The first newline of `pend + s` is right after `pend`.
        assert forall|j: int| 0 <= j < pend.len() implies (pend + s)[j] != 10u8 by {
            if (pend + s)[j] == 10u8 {
                assert(pend.contains(10u8));
            }
        }
        assert((pend + s)[pend.len() as int] == 10u8);
        lemma_first_nl_is(pend + s, pend.len() as nat);
        assert((pend + s).take(pend.len() as int) =~= pend);
        assert((pend + s).skip(pend.len() as int + 1) =~= rest);
        let tail = scan(Seq::empty(), Seq::empty(), rest);
        assert(seq![strip_cr(pend)] + (tail.0 + fragment_lines(tail.1)) =~= (seq![strip_cr(pend)]
            + tail.0) + fragment_lines(tail.1));
    } else {
        let rest = s.skip(1);
        let pend2 = pend.push(s[0]);
        assert(!pend2.contains(10u8)) by {
            if pend2.contains(10u8) {
                let j = choose|j: int| 0 <= j < pend2.len() && pend2[j] == 10u8;
                if j < pend.len() {
                    assert(pend[j] == 10u8);
                    assert(pend.contains(10u8));
                }
            }
        }
        lemma_scan_lines(pend2, rest);
        assert(pend2 + rest =~= pend + s);
    }
}

/// Extending the input by one byte advances the fold by one step.
proof fn lemma_scan_extend(pend: Seq<u8>, s: Seq<u8>, b: u8)
    ensures
        b == 10u8 ==> scan(Seq::empty(), pend, s.push(b)) == (scan(
            Seq::empty(),
            pend,
            s,
        ).0.push(strip_cr(scan(Seq::empty(), pend, s).1)), Seq::<u8>::empty()),
        b != 10u8 ==> scan(Seq::empty(), pend, s.push(b)) == (scan(Seq::empty(), pend, s).0, scan(
            Seq::empty(),
            pend,
            s,
        ).1.push(b)),
{
    assert(s.push(b) =~= s + seq![b]);
    lemma_scan_concat(Seq::empty(), pend, s, seq![b]);
    let mid = scan(Seq::empty(), pend, s);
    assert(seq![b].len() == 1);
    assert(seq![b][0] == b);
    assert(seq![b].skip(1) =~= Seq::<u8>::empty());
    if b == 10u8 {
        assert(scan(mid.0, mid.1, seq![b]) == scan(
            mid.0.push(strip_cr(mid.1)),
            Seq::empty(),
            seq![b].skip(1),
        ));
        assert(scan(mid.0.push(strip_cr(mid.1)), Seq::empty(), Seq::<u8>::empty()) == (mid.0.push(
            strip_cr(mid.1),
        ), Seq::<u8>::empty()));
    } else {
        assert(scan(mid.0, mid.1, seq![b]) == scan(mid.0, mid.1.push(b), seq![b].skip(1)));
        assert(scan(mid.0, mid.1.push(b), Seq::<u8>::empty()) == (mid.0, mid.1.push(b)));
    }
}

/// Taking views commutes with appending a delivered string.
proof fn lemma_views_push(ts: Seq<String>, t: String)
    ensures
        views_of(ts.push(t)) == views_of(ts).push(t@),
{
    assert(views_of(ts.push(t)) =~= views_of(ts).push(t@));
}

/// Decoding commutes with appending a raw line.
proof fn lemma_decoded_push(ls: Seq<Seq<u8>>, l: Seq<u8>)
    ensures
        decoded_lines(ls.push(l)) == decoded_lines(ls).push(lossy_text_of(l)),
{
    assert(decoded_lines(ls.push(l)) =~= decoded_lines(ls).push(lossy_text_of(l)));
}

/// Decoding commutes with concatenating raw line sequences.
proof fn lemma_decoded_concat(a: Seq<Seq<u8>>, b: Seq<Seq<u8>>)
    ensures
        decoded_lines(a + b) == decoded_lines(a) + decoded_lines(b),
{
    assert(decoded_lines(a + b) =~= decoded_lines(a) + decoded_lines(b));
}

/// The full sequence of line events a streaming run delivers for a captured
/// stdout byte sequence: every line of [`stream_lines`], decoded, in
/// emission order, final fragment included.
pub fn split_stream(stdout: &[u8]) -> (lines: Vec<String>)
    ensures
        views_of(lines@) == stream_lines(stdout@),
{
    let mut scanner = LineScanner::new();
    proof {
        assert(Seq::<u8>::empty() + stdout@ =~= stdout@);
    }
    let mut lines = scanner.push_chunk(stdout);
    proof {
        assert(Seq::<Seq<char>>::empty() + views_of(lines@) =~= views_of(lines@));
    }
    let ghost before = lines@;
    if let Some(tail) = scanner.finish() {
        lines.push(tail);
        proof {
            lemma_views_push(before, lines@.last());
        }
    } else {
        proof {
            assert(views_of(lines@) + Seq::<Seq<char>>::empty() =~= views_of(lines@));
        }
    }
    lines
}

/// Consumes a stream of stdout bytes chunk by chunk and hands back each
/// completed line, decoded, as soon as its newline arrives.
pub struct LineScanner {
    pending: Vec<u8>,
    fed: Ghost<Seq<u8>>,
}

impl LineScanner {
    /// All bytes this scanner has been fed so far.
    pub closed spec fn fed_bytes(self) -> Seq<u8> {
        self.fed@
    }

    /// The scanner is exactly the state of the left fold over the bytes fed
    /// so far.
    pub closed spec fn wf(self) -> bool {
        self.pending@ == scan(Seq::empty(), Seq::empty(), self.fed@).1
    }

    /// The decoded lines the scanner has handed back so far.
    pub closed spec fn delivered(self) -> Seq<Seq<char>> {
        decoded_lines(scan(Seq::empty(), Seq::empty(), self.fed@).0)
    }

    pub fn new() -> (s: Self)
        ensures
            s.wf(),
            s.fed_bytes() == Seq::<u8>::empty(),
            s.delivered() == Seq::<Seq<char>>::empty(),
    {
        let s = LineScanner { pending: Vec::new(), fed: Ghost(Seq::empty()) };
        proof {
            assert(decoded_lines(scan(Seq::empty(), Seq::empty(), s.fed@).0) =~= Seq::<
                Seq<char>,
            >::empty());
        }
        s
    }

    /// Feeds the next chunk of stdout bytes and returns the lines it
    /// completed, decoded, in emission order.
    pub fn push_chunk(&mut self, chunk: &[u8]) -> (out: Vec<String>)
        requires
            old(self).wf(),
        ensures
            final(self).wf(),
            final(self).fed_bytes() == old(self).fed_bytes() + chunk@,
            final(self).delivered() == old(self).delivered() + views_of(out@),
    {
        let ghost fed0 = self.fed@;
        let ghost pend0 = self.pending@;
        let mut out: Vec<String> = Vec::new();
        let mut i: usize = 0;
        proof {
            assert(chunk@.take(0) =~= Seq::<u8>::empty());
            assert(views_of(out@) =~= Seq::<Seq<char>>::empty());
            assert(decoded_lines(Seq::<Seq<u8>>::empty()) =~= Seq::<Seq<char>>::empty());
        }
        while i < chunk.len()
            invariant
                i <= chunk.len(),
                views_of(out@) == decoded_lines(scan(Seq::empty(), pend0, chunk@.take(i as int)).0),
                self.pending@ == scan(Seq::empty(), pend0, chunk@.take(i as int)).1,
                self.fed == Ghost(fed0),
            decreases chunk.len() - i,
        {
            let ghost pre = chunk@.take(i as int);
            let ghost mid = scan(Seq::empty(), pend0, pre);
            let b = chunk[i];
            proof {
                assert(chunk@.take(i as int + 1) =~= pre.push(chunk@[i as int]));
                lemma_scan_extend(pend0, pre, chunk@[i as int]);
            }
            if b == 10u8 {
                let ghost pend_before = self.pending@;
                let cr = self.pending.len() > 0 && self.pending[self.pending.len() - 1] == 13u8;
                if cr {
                    self.pending.pop();
                    proof {
                        assert(self.pending@ =~= strip_cr(pend_before));
                    }
                } else {
                    proof {
                        assert(self.pending@ =~= strip_cr(pend_before));
                    }
                }
                let ghost out_before = out@;
                let line = decode_lossy(self.pending.as_slice());
                out.push(line);
                self.pending.clear();
                proof {
                    lemma_views_push(out_before, line);
                    lemma_decoded_push(mid.0, strip_cr(pend_before));
                }
            } else {
                self.pending.push(b);
            }
            i = i + 1;
        }
        proof {
            assert(chunk@.take(chunk@.len() as int) =~= chunk@);
            self.fed@ = fed0 + chunk@;
            lemma_scan_concat(Seq::empty(), Seq::empty(), fed0, chunk@);
            lemma_scan_acc(scan(Seq::empty(), Seq::empty(), fed0).0, pend0, chunk@);
            lemma_decoded_concat(
                scan(Seq::empty(), Seq::empty(), fed0).0,
                scan(Seq::empty(), pend0, chunk@).0,
            );
        }
        out
    }

    /// Closes the stream: returns the final fragment, decoded, if the fed
    /// bytes did not end in a newline. Together with the lines already handed
    /// back, this is exactly [`stream_lines`] of everything fed — the
    /// newline-split stdout content in emission order, with nothing delivered
    /// after it.
    pub fn finish(self) -> (r: Option<String>)
        requires
            self.wf(),
        ensures
            ({
                let tail = scan(Seq::empty(), Seq::empty(), self.fed_bytes()).1;
                &&& (r is Some <==> tail.len() > 0)
                &&& (r matches Some(t) ==> t@ == lossy_text_of(tail))
                &&& self.delivered() + (match r {
                    Some(t) => seq![t@],
                    None => Seq::<Seq<char>>::empty(),
                }) == stream_lines(self.fed_bytes())
            }),
    {
        proof {
            assert(!Seq::<u8>::empty().contains(10u8));
            lemma_scan_lines(Seq::empty(), self.fed@);
            assert(Seq::<u8>::empty() + self.fed@ =~= self.fed@);
            lemma_decoded_concat(
                scan(Seq::empty(), Seq::empty(), self.fed@).0,
                fragment_lines(scan(Seq::empty(), Seq::empty(), self.fed@).1),
            );
        }
        if self.pending.is_empty() {
            proof {
                assert(decoded_lines(fragment_lines(self.pending@)) =~= Seq::<Seq<char>>::empty());
                assert(self.delivered() + Seq::<Seq<char>>::empty() =~= self.delivered());
            }
            None
        } else {
            let t = decode_lossy(self.pending.as_slice());
            proof {
                assert(decoded_lines(fragment_lines(self.pending@)) =~= seq![
                    lossy_text_of(self.pending@),
                ]);
            }
            Some(t)
        }
    }
}

} // verus!
