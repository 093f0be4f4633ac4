//! The pattern-data expander.
//!
//! A pattern-initialized data section's contents are a small program whose
//! execution produces exactly `unpacked_size` bytes of initialized data. An
//! instruction starts with one opcode byte: the top two bits select the
//! operation, the low six bits hold the count, and a count field of zero
//! means the next byte holds the count less 64. The operations are a
//! zero-fill run of `count` bytes, a literal run of the next `count` bytes,
//! and a repeat of the most recent `count` output bytes, taken `times` (one
//! more than the following byte) times, optionally adding a per-repetition
//! increment (the byte after that) to the block's trailing byte.
//!
//! Decoding is strictly sequential, stops exactly when the requested size is
//! reached, and never reads past the program: running out of program bytes
//! is [`Error::PatternTruncated`]; an instruction that would overshoot the
//! requested size, or repeat a block longer than the output produced so far,
//! is [`Error::PatternSizeMismatch`]. The result is the one intentionally
//! owned, freshly materialized buffer in the crate.

use vstd::prelude::*;
use crate::endian::read_u8;
use crate::error::Error;

verus! {

broadcast use vstd::slice::group_slice_axioms;

/// One decoded pattern instruction: a zero-fill run (count), a literal run
/// (its bytes), or a repeated block (count, times, per-repetition
/// increment).
pub enum PatInstr {
    /// Emit this many zero bytes.
    Zeros(int),
    /// Emit these bytes verbatim.
    Literal(Seq<u8>),
    /// Emit the most recent `0` output bytes `1` times, adding `2` to the
    /// block's last byte on each repetition.
    Repeat(int, int, u8),
}

/// The outcome of reading one instruction: the instruction and the position
/// after it, or a program that ends inside the instruction.
pub enum InstrOutcome {
    /// An instruction and the position just past it.
    Read(PatInstr, int),
    /// The program ends inside the instruction.
    Short,
}

/// The outcome of decoding a whole pattern program: the produced bytes and
/// the position just past the last instruction consumed, a program that ends
/// too early, or a program that overshoots the requested size.
pub enum PatOutcome {
    /// The produced bytes and the end position of the decoding.
    Done(Seq<u8>, int),
    /// The program ended before producing the requested size.
    Truncated,
    /// An instruction would overshoot the requested size, or repeats a block
    /// longer than the output produced so far.
    SizeMismatch,
}

/// A run of `n` zero bytes.
pub open spec fn spec_zeros(n: int) -> Seq<u8> {
    Seq::new(n as nat, |i: int| 0u8)
}

/// The block's trailing byte after `j` additions of `delta`, wrapping.
pub open spec fn spec_wrap_inc(b: u8, delta: u8, j: int) -> u8 {
    ((b + delta * j) % 256) as u8
}

/// The `j`-th (1-based) repetition of `block`: the block with `j` increments
/// of `delta` added to its last byte.
pub open spec fn spec_rep_block(block: Seq<u8>, delta: u8, j: int) -> Seq<u8> {
    block.update(block.len() - 1, spec_wrap_inc(block.last(), delta, j))
}

/// The first `n` repetitions of `block`, concatenated.
pub open spec fn spec_rep_out(block: Seq<u8>, delta: u8, n: int) -> Seq<u8>
    decreases n,
{
    if n <= 0 {
        Seq::empty()
    } else {
        spec_rep_out(block, delta, n - 1) + spec_rep_block(block, delta, n)
    }
}

/// The concatenated repetitions have `n` times the block's length.
pub proof fn lemma_rep_out_len(block: Seq<u8>, delta: u8, n: int)
    requires
        n >= 0,
        block.len() >= 1,
    ensures
        spec_rep_out(block, delta, n).len() == n * block.len(),
    decreases n,
{
    if n == 0 {
        assert(n * block.len() == 0) by (nonlinear_arith)
            requires n == 0;
    } else {
        lemma_rep_out_len(block, delta, n - 1);
        assert(spec_rep_block(block, delta, n).len() == block.len());
        assert(spec_rep_out(block, delta, n)
            == spec_rep_out(block, delta, n - 1) + spec_rep_block(block, delta, n));
        assert((n - 1) * block.len() + block.len() == n * block.len()) by (nonlinear_arith);
    }
}

/// Read the instruction whose opcode byte sits at `pos`.
pub open spec fn spec_instr_at(prog: Seq<u8>, pos: int) -> InstrOutcome
    recommends
        0 <= pos < prog.len(),
{
    let b = prog[pos];
    let op = b / 64;
    let c6 = b % 64;
    if c6 == 0 && pos + 2 > prog.len() {
        InstrOutcome::Short
    } else {
        let count: int = if c6 != 0 { c6 as int } else { prog[pos + 1] + 64 };
        let argpos: int = if c6 != 0 { pos + 1 } else { pos + 2 };
        if op == 0 {
            InstrOutcome::Read(PatInstr::Zeros(count), argpos)
        } else if op == 1 {
            if argpos + count <= prog.len() {
                InstrOutcome::Read(
                    PatInstr::Literal(prog.subrange(argpos, argpos + count)),
                    argpos + count,
                )
            } else {
                InstrOutcome::Short
            }
        } else if op == 2 {
            if argpos + 1 <= prog.len() {
                InstrOutcome::Read(PatInstr::Repeat(count, prog[argpos] + 1, 0), argpos + 1)
            } else {
                InstrOutcome::Short
            }
        } else {
            if argpos + 2 <= prog.len() {
                InstrOutcome::Read(
                    PatInstr::Repeat(count, prog[argpos] + 1, prog[argpos + 1]),
                    argpos + 2,
                )
            } else {
                InstrOutcome::Short
            }
        }
    }
}

/// Decode the program from `pos` with `produced` bytes already produced,
/// until `target` bytes are produced or the decoding fails.
pub open spec fn pat_decode(prog: Seq<u8>, pos: int, produced: Seq<u8>, target: int) -> PatOutcome
    decreases prog.len() - pos,
{
    if produced.len() >= target {
        PatOutcome::Done(produced, pos)
    } else if pos < 0 || pos >= prog.len() {
        PatOutcome::Truncated
    } else {
        match spec_instr_at(prog, pos) {
            InstrOutcome::Short => PatOutcome::Truncated,
            InstrOutcome::Read(instr, next) => match instr {
                PatInstr::Zeros(count) => if produced.len() + count > target {
                    PatOutcome::SizeMismatch
                } else {
                    pat_decode(prog, next, produced + spec_zeros(count), target)
                },
                PatInstr::Literal(bytes) => if produced.len() + bytes.len() > target {
                    PatOutcome::SizeMismatch
                } else {
                    pat_decode(prog, next, produced + bytes, target)
                },
                PatInstr::Repeat(count, times, delta) => if count > produced.len() {
                    PatOutcome::SizeMismatch
                } else if produced.len() + count * times > target {
                    PatOutcome::SizeMismatch
                } else {
                    pat_decode(
                        prog,
                        next,
                        produced + spec_rep_out(
                            produced.subrange(produced.len() - count, produced.len() as int),
                            delta,
                            times,
                        ),
                        target,
                    )
                },
            },
        }
    }
}

/// The outcome of expanding the whole program `prog` to `target` bytes.
pub open spec fn spec_expand(prog: Seq<u8>, target: int) -> PatOutcome {
    pat_decode(prog, 0, Seq::empty(), target)
}


/// Expand a packed pattern program to exactly `unpacked_size` bytes.
///
/// Returns the freshly materialized data, [`Error::PatternTruncated`] if the
/// program ends (or an instruction reads) past its last byte before the
/// requested size is produced, and [`Error::PatternSizeMismatch`] if an
/// instruction would overshoot the requested size or repeat a block longer
/// than the output produced so far.
#[verifier::loop_isolation(false)]
#[verifier::rlimit(100)]
pub fn expand_pattern(prog: &[u8], unpacked_size: usize) -> (r: Result<Vec<u8>, Error>)
    ensures
        match r {
            Ok(v) => {
                &&& spec_expand(prog@, unpacked_size as int)
                    == (PatOutcome::Done(v@, spec_expand(prog@, unpacked_size as int)->Done_1))
                &&& 0 <= spec_expand(prog@, unpacked_size as int)->Done_1 <= prog@.len()
                &&& v@.len() == unpacked_size
            },
            Err(Error::PatternTruncated) => spec_expand(prog@, unpacked_size as int) is Truncated,
            Err(Error::PatternSizeMismatch) => spec_expand(prog@, unpacked_size as int) is SizeMismatch,
            Err(_) => false,
        },
{
    let target = unpacked_size;
    let mut out: Vec<u8> = Vec::new();
    let mut pos: usize = 0;
    while out.len() < target
        invariant
            out@.len() <= target,
            pos <= prog@.len(),
            spec_expand(prog@, target as int)
                == pat_decode(prog@, pos as int, out@, target as int),
        decreases prog@.len() - pos,
    {
        let ghost pre_pos = pos as int;
        let ghost pre_out = out@;
        if pos >= prog.len() {
            return Err(Error::PatternTruncated);
        }
        let b = read_u8(prog, pos);
        let op = b / 64;
        let c6 = b % 64;
        let count: usize;
        let argpos: usize;
        if c6 != 0 {
            count = c6 as usize;
            argpos = pos + 1;
        } else {
            if prog.len() - pos < 2 {
                proof {
                    assert(spec_instr_at(prog@, pre_pos) is Short);
                }
                return Err(Error::PatternTruncated);
            }
            count = read_u8(prog, pos + 1) as usize + 64;
            argpos = pos + 2;
        }
        if op == 0 {
            proof {
                assert(spec_instr_at(prog@, pre_pos)
                    == (InstrOutcome::Read(PatInstr::Zeros(count as int), argpos as int)));
            }
            if target - out.len() < count {
                return Err(Error::PatternSizeMismatch);
            }
            let mut k: usize = 0;
            while k < count
                invariant
                    k <= count,
                    out@ == pre_out + spec_zeros(k as int),
                decreases count - k,
            {
                out.push(0);
                proof {
                    assert(pre_out + spec_zeros(k + 1)
                        =~= (pre_out + spec_zeros(k as int)).push(0u8));
                }
                k = k + 1;
            }
            pos = argpos;
        } else if op == 1 {
            if prog.len() - argpos < count {
                proof {
                    assert(spec_instr_at(prog@, pre_pos) is Short);
                }
                return Err(Error::PatternTruncated);
            }
            proof {
                assert(spec_instr_at(prog@, pre_pos) == (InstrOutcome::Read(
                    PatInstr::Literal(prog@.subrange(argpos as int, argpos + count)),
                    argpos + count)));
            }
            if target - out.len() < count {
                return Err(Error::PatternSizeMismatch);
            }
            let mut k: usize = 0;
            while k < count
                invariant
                    k <= count,
                    out@ == pre_out + prog@.subrange(argpos as int, argpos + k),
                decreases count - k,
            {
                let byte = read_u8(prog, argpos + k);
                out.push(byte);
                proof {
                    assert(prog@.subrange(argpos as int, argpos + k + 1)
                        =~= prog@.subrange(argpos as int, argpos + k).push(prog@[argpos + k]));
                }
                k = k + 1;
            }
            pos = argpos + count;
        } else {
            let times: usize;
            let delta: u8;
            let next: usize;
            if op == 2 {
                if prog.len() - argpos < 1 {
                    proof {
                        assert(spec_instr_at(prog@, pre_pos) is Short);
                    }
                    return Err(Error::PatternTruncated);
                }
                times = read_u8(prog, argpos) as usize + 1;
                delta = 0;
                next = argpos + 1;
            } else {
                if prog.len() - argpos < 2 {
                    proof {
                        assert(spec_instr_at(prog@, pre_pos) is Short);
                    }
                    return Err(Error::PatternTruncated);
                }
                times = read_u8(prog, argpos) as usize + 1;
                delta = read_u8(prog, argpos + 1);
                next = argpos + 2;
            }
            proof {
                assert(spec_instr_at(prog@, pre_pos) == (InstrOutcome::Read(
                    PatInstr::Repeat(count as int, times as int, delta), next as int)));
            }
            if count > out.len() {
                return Err(Error::PatternSizeMismatch);
            }
            proof {
                assert(count * times <= 319 * 256) by (nonlinear_arith)
                    requires count <= 319 && times <= 256;
            }
            let emitted = count * times;
            if target - out.len() < emitted {
                proof {
                    lemma_rep_out_len(
                        pre_out.subrange(pre_out.len() - count, pre_out.len() as int),
                        delta, times as int);
                }
                return Err(Error::PatternSizeMismatch);
            }
            let base = out.len() - count;
            let ghost block = pre_out.subrange(base as int, pre_out.len() as int);
            let mut j: usize = 0;
            while j < times
                invariant
                    j <= times,
                    out@ == pre_out + spec_rep_out(block, delta, j as int),
                    out@.len() == pre_out.len() + j * count,
                decreases times - j,
            {
                let ghost rep_pre = out@;
                let mut idx: usize = 0;
                while idx < count
                    invariant
                        idx <= count,
                        j < times,
                        rep_pre == pre_out + spec_rep_out(block, delta, j as int),
                        out@ == rep_pre + spec_rep_block(block, delta, j + 1).take(idx as int),
                        out@.len() == rep_pre.len() + idx,
                    decreases count - idx,
                {
                    let byte = out[base + idx];
                    proof {
                        assert(out@[base + idx] == block[idx as int]);
                    }
                    let val: u8;
                    if idx == count - 1 {
                        proof {
                            assert((delta as int) * (j + 1) <= 255 * 256) by (nonlinear_arith)
                                requires delta <= 255 && j + 1 <= 256;
                        }
                        let t = (byte as usize) + (delta as usize) * (j + 1);
                        val = (t % 256) as u8;
                        proof {
                            assert(val == spec_wrap_inc(block.last(), delta, j + 1));
                        }
                    } else {
                        val = byte;
                    }
                    out.push(val);
                    proof {
                        assert(spec_rep_block(block, delta, j + 1)[idx as int] == val);
                        assert(spec_rep_block(block, delta, j + 1).take(idx + 1)
                            =~= spec_rep_block(block, delta, j + 1).take(idx as int).push(val));
                    }
                    idx = idx + 1;
                }
                proof {
                    assert(spec_rep_block(block, delta, j + 1).take(count as int)
                        =~= spec_rep_block(block, delta, j + 1));
                    assert(pre_out + spec_rep_out(block, delta, j + 1)
                        =~= pre_out + spec_rep_out(block, delta, j as int)
                            + spec_rep_block(block, delta, j + 1));
                    assert((j + 1) * count == j * count + count) by (nonlinear_arith);
                }
                j = j + 1;
            }
            proof {
                lemma_rep_out_len(block, delta, times as int);
                assert(times * count == count * times) by (nonlinear_arith);
            }
            pos = next;
        }
        proof {
            assert(pat_decode(prog@, pre_pos, pre_out, target as int)
                == pat_decode(prog@, pos as int, out@, target as int));
        }
    }
    proof {
        assert(pat_decode(prog@, pos as int, out@, target as int)
            == (PatOutcome::Done(out@, pos as int)));
    }
    Ok(out)
}



/// Every instruction emits at least one byte and at least one repetition.
pub proof fn lemma_instr_emits(prog: Seq<u8>, pos: int)
    requires
        0 <= pos < prog.len(),
        spec_instr_at(prog, pos) is Read,
    ensures
        match spec_instr_at(prog, pos)->Read_0 {
            PatInstr::Zeros(count) => count >= 1,
            PatInstr::Literal(bytes) => bytes.len() >= 1,
            PatInstr::Repeat(count, times, _) => count >= 1 && times >= 1,
        },
        pos < spec_instr_at(prog, pos)->Read_1 <= prog.len(),
{
}

/// A successful decoding with `produced` not yet past the target ends with
/// exactly `target` bytes: no step may overshoot.
pub proof fn lemma_decode_exact_size(prog: Seq<u8>, pos: int, produced: Seq<u8>, target: int)
    requires
        produced.len() <= target,
        pat_decode(prog, pos, produced, target) is Done,
    ensures
        pat_decode(prog, pos, produced, target)->Done_0.len() == target,
    decreases prog.len() - pos,
{
    if produced.len() >= target {
    } else {
        let io = spec_instr_at(prog, pos);
        lemma_instr_emits(prog, pos);
        match io {
            InstrOutcome::Short => {},
            InstrOutcome::Read(instr, next) => match instr {
                PatInstr::Zeros(count) => {
                    lemma_decode_exact_size(prog, next, produced + spec_zeros(count), target);
                },
                PatInstr::Literal(bytes) => {
                    lemma_decode_exact_size(prog, next, produced + bytes, target);
                },
                PatInstr::Repeat(count, times, delta) => {
                    if count <= produced.len() && produced.len() + count * times <= target {
                        let block = produced.subrange(
                            produced.len() - count, produced.len() as int);
                        lemma_rep_out_len(block, delta, times);
                        assert(times * count == count * times) by (nonlinear_arith);
                        lemma_decode_exact_size(
                            prog, next, produced + spec_rep_out(block, delta, times), target);
                    }
                },
            },
        }
    }
}

/// Reading an instruction out of the program truncated by one byte: an
/// instruction that ended exactly at the old end is now short; any other
/// instruction reads the same.
pub proof fn lemma_instr_truncated(prog: Seq<u8>, pos: int)
    requires
        0 <= pos < prog.len() - 1,
        spec_instr_at(prog, pos) is Read,
    ensures
        spec_instr_at(prog, pos)->Read_1 <= prog.len() - 1 ==> spec_instr_at(
            prog.take(prog.len() - 1), pos) == spec_instr_at(prog, pos),
        spec_instr_at(prog, pos)->Read_1 == prog.len() ==> spec_instr_at(
            prog.take(prog.len() - 1), pos) is Short,
{
    let t = prog.take(prog.len() - 1);
    let b = prog[pos];
    let op = b / 64;
    let c6 = b % 64;
    let next = spec_instr_at(prog, pos)->Read_1;
    assert(t[pos] == prog[pos]);
    if c6 == 0 {
        assert(pos + 2 <= prog.len());
        if pos + 2 <= prog.len() - 1 {
            assert(t[pos + 1] == prog[pos + 1]);
        }
    }
    let argpos: int = if c6 != 0 { pos + 1 } else { pos + 2 };
    if next <= prog.len() - 1 {
        if op == 1 {
            let count: int = if c6 != 0 { c6 as int } else { prog[pos + 1] + 64 };
            assert(t.subrange(argpos, argpos + count)
                =~= prog.subrange(argpos, argpos + count));
        }
        if op == 2 || op == 3 {
            assert(t[argpos] == prog[argpos]);
        }
        if op == 3 {
            assert(t[argpos + 1] == prog[argpos + 1]);
        }
    }
}

/// Truncating a fully consumed pattern program by one byte makes decoding
/// fail as truncated: it can never silently produce a short result.
pub proof fn lemma_decode_truncated(prog: Seq<u8>, pos: int, produced: Seq<u8>, target: int)
    requires
        0 <= pos <= prog.len(),
        pat_decode(prog, pos, produced, target) is Done,
        pat_decode(prog, pos, produced, target)->Done_1 == prog.len(),
        produced.len() < target,
    ensures
        pat_decode(prog.take(prog.len() - 1), pos, produced, target) is Truncated,
    decreases prog.len() - pos,
{
    let t = prog.take(prog.len() - 1);
    assert(pos < prog.len());
    let io = spec_instr_at(prog, pos);
    match io {
        InstrOutcome::Short => {
            assert(false);
        },
        InstrOutcome::Read(instr, next) => {
            lemma_instr_emits(prog, pos);
            if pos == prog.len() - 1 {
                assert(pos >= t.len());
            } else {
                lemma_instr_truncated(prog, pos);
                if next == prog.len() {
                    assert(spec_instr_at(t, pos) is Short);
                } else {
                    let produced2 = match instr {
                        PatInstr::Zeros(count) => produced + spec_zeros(count),
                        PatInstr::Literal(bytes) => produced + bytes,
                        PatInstr::Repeat(count, times, delta) => produced + spec_rep_out(
                            produced.subrange(produced.len() - count, produced.len() as int),
                            delta, times),
                    };
                    assert(pat_decode(prog, pos, produced, target)
                        == pat_decode(prog, next, produced2, target));
                    if produced2.len() >= target {
                        assert(pat_decode(prog, next, produced2, target)
                            == (PatOutcome::Done(produced2, next)));
                        assert(false);
                    } else {
                        lemma_decode_truncated(prog, next, produced2, target);
                        assert(pat_decode(t, pos, produced, target)
                            == pat_decode(t, next, produced2, target));
                    }
                }
            }
        },
    }
}

/// Expanding a packed program is exact in size, and truncating a fully
/// consumed program by one byte always fails as truncated, never as a
/// silently short result.
pub proof fn lemma_expansion_size_and_truncation(prog: Seq<u8>, target: int)
    requires
        target > 0,
        spec_expand(prog, target) is Done,
        spec_expand(prog, target)->Done_1 == prog.len(),
    ensures
        spec_expand(prog, target)->Done_0.len() == target,
        spec_expand(prog.take(prog.len() - 1), target) is Truncated,
{
    lemma_decode_exact_size(prog, 0, Seq::empty(), target);
    lemma_decode_truncated(prog, 0, Seq::empty(), target);
}


} // verus!
