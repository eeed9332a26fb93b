//! A small, fully verified stepping oracle: a register machine whose
//! programs are lines of `read n`, `write n` and `halt`.
//!
//! One instruction per line, matched exactly after an optional trailing
//! carriage return is dropped: a blank line carries no instruction, `halt`
//! stops the run, `read n` reads one line of input and stores it as a
//! decimal 64-bit integer in register `n`, and `write n` writes register
//! `n` (zero when never written) as decimal text to the output adapter.
//! Anything else is a parse error.  Each instruction remembers its 1-based
//! source line, which is the line reported by the snapshots that drive
//! breakpoints.
//!
//! A step on a live machine executes the instruction under the program
//! counter and reports a snapshot whose line is the next instruction's
//! source line (0 when none remains, and 0 for `halt`).  A failed read
//! (input exhausted, or text that is not a 64-bit decimal integer) faults
//! the machine: the step reports termination and the terminal state carries
//! the error.

use crate::io::custom_reader::line_end;
use crate::io::custom_reader::CustomReader;
use crate::io::custom_writer::utf8_lossy;
use crate::io::custom_writer::CustomWriter;
use crate::numfmt::all_digits;
use crate::numfmt::dec_bytes;
use crate::numfmt::dec_repr;
use crate::numfmt::digits_val;
use crate::numfmt::int_literal_val;
use crate::numfmt::is_digit;
use crate::numfmt::is_int_literal;
use crate::numfmt::parse_i64;
use crate::oracle::Snapshot;
use crate::oracle::SteppingOracle;
use crate::oracle::TerminalState;
use vstd::prelude::*;

verus! {

use vstd::string::StringExecFns;
use vstd::string::StringSliceAdditionalSpecFns;

/// One machine instruction.
#[derive(Clone, Copy, Debug, PartialEq, Eq, Structural)]
pub enum Op {
    /// Read one input line into the given register.
    Read(usize),
    /// Write the given register as decimal text.
    Write(usize),
    /// Stop the run.
    Halt,
}

/// An instruction together with its 1-based source line.
#[derive(Clone, Copy, Debug, PartialEq, Eq, Structural)]
pub struct Instr {
    pub op: Op,
    pub line: usize,
}

/// Why a run faulted.
#[derive(Clone, Copy, Debug, PartialEq, Eq, Structural)]
pub enum FaultKind {
    /// A `read` found the input adapter empty.
    InputExhausted,
    /// A `read` got a line that is not a decimal 64-bit integer.
    MalformedNumber,
}

/// The mathematical state of a machine.
pub struct MachineState {
    pub prog: Seq<Instr>,
    pub pc: nat,
    pub regs: Seq<i64>,
    pub halted: bool,
    pub fault: Option<FaultKind>,
}

/// A machine that still has an instruction to execute.
pub open spec fn live(m: MachineState) -> bool {
    &&& !m.halted
    &&& m.fault is None
    &&& m.pc < m.prog.len()
}

/// Register `r` of the file `regs`: zero when never written.
pub open spec fn reg_get(regs: Seq<i64>, r: int) -> i64 {
    if 0 <= r < regs.len() {
        regs[r]
    } else {
        0
    }
}

/// The file `regs` with register `r` set to `v`, grown with zeros as
/// needed.
pub open spec fn grow_set(regs: Seq<i64>, r: int, v: i64) -> Seq<i64> {
    (if r < regs.len() {
        regs
    } else {
        regs + Seq::new((r + 1 - regs.len()) as nat, |j: int| 0i64)
    }).update(r, v)
}

/// The source line a snapshot reports once the counter stands at `pc`: the
/// line of the instruction about to execute, or 0 when none remains.
pub open spec fn next_line(prog: Seq<Instr>, pc: nat) -> usize {
    if pc < prog.len() {
        prog[pc as int].line
    } else {
        0
    }
}

/// Everything one step changes or emits.
pub struct StepEffect {
    /// The machine afterwards.
    pub machine: MachineState,
    /// The input bytes left unconsumed.
    pub input: Seq<u8>,
    /// The byte payloads written to the output adapter, in order.
    pub wrote: Seq<Seq<u8>>,
    /// The reported snapshot: register file and next source line.
    pub snap: Option<(Seq<i64>, usize)>,
}

/// The machine's transition function: what stepping `m` against the
/// pending input `input` does.
pub open spec fn spec_step(m: MachineState, input: Seq<u8>) -> StepEffect {
    if !live(m) {
        StepEffect { machine: m, input: input, wrote: Seq::empty(), snap: None }
    } else {
        match m.prog[m.pc as int].op {
            Op::Halt => StepEffect {
                machine: MachineState {
                    prog: m.prog,
                    pc: m.pc + 1,
                    regs: m.regs,
                    halted: true,
                    fault: m.fault,
                },
                input: input,
                wrote: Seq::empty(),
                snap: Some((m.regs, 0usize)),
            },
            Op::Write(rg) => StepEffect {
                machine: MachineState {
                    prog: m.prog,
                    pc: m.pc + 1,
                    regs: m.regs,
                    halted: false,
                    fault: m.fault,
                },
                input: input,
                wrote: seq![dec_repr(reg_get(m.regs, rg as int) as int)],
                snap: Some((m.regs, next_line(m.prog, m.pc + 1))),
            },
            Op::Read(rg) => {
                if input.len() == 0 {
                    StepEffect {
                        machine: MachineState {
                            prog: m.prog,
                            pc: m.pc,
                            regs: m.regs,
                            halted: false,
                            fault: Some(FaultKind::InputExhausted),
                        },
                        input: input,
                        wrote: Seq::empty(),
                        snap: None,
                    }
                } else {
                    let e = line_end(input);
                    let lineb = input.take(e);
                    let rest = if e + 1 <= input.len() {
                        input.skip(e + 1)
                    } else {
                        Seq::<u8>::empty()
                    };
                    if is_int_literal(lineb) && i64::MIN <= int_literal_val(lineb) <= i64::MAX {
                        let regs2 = grow_set(m.regs, rg as int, int_literal_val(lineb) as i64);
                        StepEffect {
                            machine: MachineState {
                                prog: m.prog,
                                pc: m.pc + 1,
                                regs: regs2,
                                halted: false,
                                fault: m.fault,
                            },
                            input: rest,
                            wrote: Seq::empty(),
                            snap: Some((regs2, next_line(m.prog, m.pc + 1))),
                        }
                    } else {
                        StepEffect {
                            machine: MachineState {
                                prog: m.prog,
                                pc: m.pc,
                                regs: m.regs,
                                halted: false,
                                fault: Some(FaultKind::MalformedNumber),
                            },
                            input: rest,
                            wrote: Seq::empty(),
                            snap: None,
                        }
                    }
                }
            },
        }
    }
}

/// `raw` without a single trailing carriage return, if it has one.
pub open spec fn strip_cr(raw: Seq<u8>) -> Seq<u8> {
    if raw.len() > 0 && raw.last() == 13 {
        raw.drop_last()
    } else {
        raw
    }
}

/// The bytes of `halt`.
pub open spec fn kw_halt() -> Seq<u8> {
    seq![104u8, 97u8, 108u8, 116u8]
}

/// The bytes of `read ` (keyword and separating space).
pub open spec fn kw_read() -> Seq<u8> {
    seq![114u8, 101u8, 97u8, 100u8, 32u8]
}

/// The bytes of `write ` (keyword and separating space).
pub open spec fn kw_write() -> Seq<u8> {
    seq![119u8, 114u8, 105u8, 116u8, 101u8, 32u8]
}

/// A register operand: one or more decimal digits whose value fits in
/// `usize`.
pub open spec fn parse_reg(s: Seq<u8>) -> Option<usize> {
    if s.len() > 0 && all_digits(s) && digits_val(s) <= usize::MAX {
        Some(digits_val(s) as usize)
    } else {
        None
    }
}

/// One source line: `None` on a malformed line, `Some(None)` on a blank
/// line, and otherwise the instruction it spells.
pub open spec fn parse_line(raw: Seq<u8>) -> Option<Option<Op>> {
    let line = strip_cr(raw);
    if line.len() == 0 {
        Some(None)
    } else if line == kw_halt() {
        Some(Some(Op::Halt))
    } else if line.len() > 5 && line.take(5) == kw_read() {
        match parse_reg(line.skip(5)) {
            Some(rg) => Some(Some(Op::Read(rg))),
            None => None,
        }
    } else if line.len() > 6 && line.take(6) == kw_write() {
        match parse_reg(line.skip(6)) {
            Some(rg) => Some(Some(Op::Write(rg))),
            None => None,
        }
    } else {
        None
    }
}

/// The next source line number, saturating at the top of `usize` so that
/// numbering is total.
pub open spec fn next_line_no(line_no: usize) -> usize {
    if line_no == usize::MAX {
        line_no
    } else {
        (line_no + 1) as usize
    }
}

/// The instructions of the source suffix `src`, whose first line is line
/// `line_no`; `None` when some line is malformed.
pub open spec fn parse_from(src: Seq<u8>, line_no: usize) -> Option<Seq<Instr>>
    decreases src.len(),
{
    if src.len() == 0 {
        Some(Seq::empty())
    } else {
        let e = line_end(src);
        let raw = src.take(e);
        let rest = if e < src.len() {
            src.skip(e + 1)
        } else {
            Seq::<u8>::empty()
        };
        proof {
            crate::io::custom_reader::lemma_line_end_bounds(src);
        }
        match parse_line(raw) {
            None => None,
            Some(opt) => match parse_from(rest, next_line_no(line_no)) {
                None => None,
                Some(tail) => Some(
                    (match opt {
                        Some(op) => seq![Instr { op, line: line_no }],
                        None => Seq::empty(),
                    }) + tail,
                ),
            },
        }
    }
}

/// The program spelled by the whole source, lines numbered from 1.
pub open spec fn parse_program(src: Seq<u8>) -> Option<Seq<Instr>> {
    parse_from(src, 1)
}

/// The machine a freshly parsed program starts as.
pub open spec fn fresh_machine(prog: Seq<Instr>) -> MachineState {
    MachineState { prog, pc: 0, regs: Seq::empty(), halted: false, fault: None }
}

/// The verified reference oracle.
#[derive(Debug)]
pub struct MiniRam {
    prog: Vec<Instr>,
    pc: usize,
    regs: Vec<i64>,
    halted: bool,
    fault: Option<FaultKind>,
}

impl View for MiniRam {
    type V = MachineState;

    closed spec fn view(&self) -> MachineState {
        MachineState {
            prog: self.prog@,
            pc: self.pc as nat,
            regs: self.regs@,
            halted: self.halted,
            fault: self.fault,
        }
    }
}

fn copy_regs(v: &Vec<i64>) -> (r: Vec<i64>)
    ensures
        r@ == v@,
{
    let mut r: Vec<i64> = Vec::new();
    let n = v.len();
    let mut i: usize = 0;
    while i < n
        invariant
            i <= n,
            n == v@.len(),
            r@ =~= v@.take(i as int),
        decreases n - i,
    {
        let x = v[i];
        r.push(x);
        proof {
            assert(r@ =~= v@.take(i + 1 as int));
        }
        i += 1;
    }
    proof {
        assert(v@.take(n as int) =~= v@);
    }
    r
}

/// Parses the operand digits `bytes[a..b]` as a register index.
fn parse_reg_exec(bytes: &[u8], a: usize, b: usize) -> (r: Option<usize>)
    requires
        a <= b <= bytes@.len(),
    ensures
        r == parse_reg(bytes@.subrange(a as int, b as int)),
{
    let ghost s = bytes@.subrange(a as int, b as int);
    if a == b {
        return None;
    }
    let mut acc: usize = 0;
    let mut i: usize = a;
    while i < b
        invariant
            a <= i <= b,
            b <= bytes@.len(),
            a < b,
            s == bytes@.subrange(a as int, b as int),
            all_digits(s.take(i - a)),
            acc == digits_val(s.take(i - a)),
            acc <= usize::MAX,
        decreases b - i,
    {
        let c = *vstd::slice::slice_index_get(bytes, i);
        proof {
            assert(s[i - a] == bytes@[i as int]);
        }
        if c < 48 || c > 57 {
            proof {
                assert(!is_digit(s[i - a]));
            }
            return None;
        }
        let d: usize = (c - 48) as usize;
        proof {
            assert(s.take(i - a + 1).drop_last() =~= s.take(i - a));
            assert(all_digits(s.take(i - a + 1)));
            assert(digits_val(s.take(i - a + 1)) == acc * 10 + d);
        }
        if acc > usize::MAX / 10 {
            proof {
                lemma_reg_too_big(s, i - a + 1);
            }
            return None;
        }
        let acc10: usize = acc * 10;
        if d > usize::MAX - acc10 {
            proof {
                lemma_reg_too_big(s, i - a + 1);
            }
            return None;
        }
        acc = acc10 + d;
        i += 1;
    }
    proof {
        assert(s.take(s.len() as int) =~= s);
    }
    Some(acc)
}

/// A digit prefix whose value already exceeds `usize::MAX` rules the whole
/// operand out.
proof fn lemma_reg_too_big(s: Seq<u8>, k: int)
    requires
        0 < k <= s.len(),
        all_digits(s.take(k)),
        digits_val(s.take(k)) > usize::MAX,
    ensures
        parse_reg(s) is None,
{
    if s.len() > 0 && all_digits(s) {
        crate::numfmt::lemma_digits_val_monotone(s, k, s.len() as int);
        assert(s.take(s.len() as int) =~= s);
    }
}

/// Parses the source line `bytes[a..b]` (line-feed free).
fn parse_line_exec(bytes: &[u8], a: usize, b: usize) -> (r: Option<Option<Op>>)
    requires
        a <= b <= bytes@.len(),
    ensures
        r == parse_line(bytes@.subrange(a as int, b as int)),
{
    let ghost raw = bytes@.subrange(a as int, b as int);
    let mut end = b;
    if end > a && *vstd::slice::slice_index_get(bytes, end - 1) == 13 {
        end -= 1;
    }
    let ghost line = strip_cr(raw);
    proof {
        assert(line =~= bytes@.subrange(a as int, end as int));
    }
    let m = end - a;
    if m == 0 {
        return Some(None);
    }
    if m == 4 {
        let c0 = *vstd::slice::slice_index_get(bytes, a);
        let c1 = *vstd::slice::slice_index_get(bytes, a + 1);
        let c2 = *vstd::slice::slice_index_get(bytes, a + 2);
        let c3 = *vstd::slice::slice_index_get(bytes, a + 3);
        if c0 == 104 && c1 == 97 && c2 == 108 && c3 == 116 {
            proof {
                assert(line =~= kw_halt());
            }
            return Some(Some(Op::Halt));
        }
    }
    proof {
        assert(line != kw_halt()) by {
            if line == kw_halt() {
                assert(line[0] == 104 && line[1] == 97 && line[2] == 108 && line[3] == 116);
            }
        }
    }
    if m > 5 {
        let c0 = *vstd::slice::slice_index_get(bytes, a);
        let c1 = *vstd::slice::slice_index_get(bytes, a + 1);
        let c2 = *vstd::slice::slice_index_get(bytes, a + 2);
        let c3 = *vstd::slice::slice_index_get(bytes, a + 3);
        let c4 = *vstd::slice::slice_index_get(bytes, a + 4);
        if c0 == 114 && c1 == 101 && c2 == 97 && c3 == 100 && c4 == 32 {
            proof {
                assert(line.take(5) =~= kw_read());
                assert(line.skip(5) =~= bytes@.subrange(a + 5 as int, end as int));
            }
            return match parse_reg_exec(bytes, a + 5, end) {
                Some(rg) => Some(Some(Op::Read(rg))),
                None => None,
            };
        }
    }
    proof {
        assert(!(line.len() > 5 && line.take(5) == kw_read())) by {
            if line.len() > 5 && line.take(5) == kw_read() {
                assert(line[0] == 114 && line[1] == 101 && line[2] == 97 && line[3] == 100
                    && line[4] == 32);
                assert(line.take(5)[0] == line[0]);
                assert(line.take(5)[1] == line[1]);
                assert(line.take(5)[2] == line[2]);
                assert(line.take(5)[3] == line[3]);
                assert(line.take(5)[4] == line[4]);
            }
        }
    }
    if m > 6 {
        let c0 = *vstd::slice::slice_index_get(bytes, a);
        let c1 = *vstd::slice::slice_index_get(bytes, a + 1);
        let c2 = *vstd::slice::slice_index_get(bytes, a + 2);
        let c3 = *vstd::slice::slice_index_get(bytes, a + 3);
        let c4 = *vstd::slice::slice_index_get(bytes, a + 4);
        let c5 = *vstd::slice::slice_index_get(bytes, a + 5);
        if c0 == 119 && c1 == 114 && c2 == 105 && c3 == 116 && c4 == 101 && c5 == 32 {
            proof {
                assert(line.take(6) =~= kw_write());
                assert(line.skip(6) =~= bytes@.subrange(a + 6 as int, end as int));
            }
            return match parse_reg_exec(bytes, a + 6, end) {
                Some(rg) => Some(Some(Op::Write(rg))),
                None => None,
            };
        }
    }
    proof {
        assert(!(line.len() > 6 && line.take(6) == kw_write())) by {
            if line.len() > 6 && line.take(6) == kw_write() {
                assert(line.take(6)[0] == line[0]);
                assert(line.take(6)[1] == line[1]);
                assert(line.take(6)[2] == line[2]);
                assert(line.take(6)[3] == line[3]);
                assert(line.take(6)[4] == line[4]);
                assert(line.take(6)[5] == line[5]);
            }
        }
    }
    None
}

impl MiniRam {
    /// Compiles `source` into a fresh machine: program counter at the first
    /// instruction, no registers written, neither halted nor faulted.
    /// Succeeds exactly when every source line parses.
    pub fn compile(source: &str) -> (r: Result<MiniRam, String>)
        ensures
            r is Ok <==> parse_program(source.spec_bytes()) is Some,
            r is Ok ==> r->Ok_0@ == fresh_machine(parse_program(source.spec_bytes())->Some_0),
    {
        let bytes: &[u8] = source.as_bytes();
        let n: usize = bytes.len();
        let mut prog: Vec<Instr> = Vec::new();
        let mut pos: usize = 0;
        let mut line_no: usize = 1;
        proof {
            assert(bytes@.skip(0) =~= bytes@);
        }
        while pos < n
            invariant
                pos <= n,
                n == bytes@.len(),
                bytes@ == source.spec_bytes(),
                parse_from(bytes@, 1) == match parse_from(bytes@.skip(pos as int), line_no) {
                    Some(tail) => Some(prog@ + tail),
                    None => None::<Seq<Instr>>,
                },
            decreases n - pos,
        {
            let ghost src = bytes@.skip(pos as int);
            let mut e: usize = pos;
            while e < n && *vstd::slice::slice_index_get(bytes, e) != 10
                invariant
                    pos <= e <= n,
                    n == bytes@.len(),
                    forall|j: int| pos <= j < e ==> bytes@[j] != 10,
                decreases n - e,
            {
                e += 1;
            }
            proof {
                assert(forall|j: int| 0 <= j < e - pos ==> src[j] == bytes@[j + pos] && src[j]
                    != 10);
                crate::io::custom_reader::lemma_line_end_agrees(src, e - pos);
                assert(src.take(e - pos) =~= bytes@.subrange(pos as int, e as int));
            }
            let ghost rest = if e < n {
                bytes@.skip(e + 1 as int)
            } else {
                Seq::<u8>::empty()
            };
            proof {
                if e < n {
                    assert(src.skip(e - pos + 1) =~= bytes@.skip(e + 1 as int));
                } else {
                    assert(src.skip(e - pos) =~= Seq::<u8>::empty());
                }
            }
            let ghost prev_prog = prog@;
            let ghost prev_line_no = line_no;
            let parsed = parse_line_exec(bytes, pos, e);
            let ghost one = match parsed {
                Some(Some(op)) => seq![Instr { op, line: prev_line_no }],
                _ => Seq::<Instr>::empty(),
            };
            match parsed {
                None => {
                    proof {
                        assert(src.take(line_end(src)) == bytes@.subrange(pos as int, e as int));
                        assert(parse_from(src, line_no) is None);
                    }
                    return Err(String::from_str("unrecognized program line"));
                },
                Some(Some(op)) => {
                    prog.push(Instr { op, line: line_no });
                    proof {
                        assert(prog@ =~= prev_prog + one);
                    }
                },
                Some(None) => {
                    proof {
                        assert(prog@ =~= prev_prog + one);
                    }
                },
            }
            if e < n {
                pos = e + 1;
            } else {
                pos = n;
            }
            if line_no < usize::MAX {
                line_no += 1;
            }
            proof {
                assert(next_line_no(prev_line_no) == line_no);
                assert(bytes@.skip(pos as int) == rest);
                let rest_parsed = parse_from(rest, line_no);
                if rest_parsed is Some {
                    let t2 = rest_parsed->Some_0;
                    assert(parse_from(src, prev_line_no) == Some(one + t2));
                    assert(prog@ + t2 =~= prev_prog + (one + t2));
                } else {
                    assert(parse_from(src, prev_line_no) is None);
                }
            }
        }
        proof {
            assert(bytes@.skip(n as int) =~= Seq::<u8>::empty());
            assert(prog@ + Seq::<Instr>::empty() =~= prog@);
        }
        Ok(MiniRam { prog, pc: 0, regs: Vec::new(), halted: false, fault: None })
    }

    /// Executes one instruction against the two adapters, exactly as
    /// [`spec_step`] describes: the returned snapshot, the consumed input,
    /// the notifications pushed through `output` and the machine afterwards
    /// all follow the transition function.
    pub fn advance(&mut self, input: &mut CustomReader, output: &mut CustomWriter) -> (r: Option<
        Snapshot,
    >)
        ensures
            ({
                let e = spec_step(old(self)@, old(input)@);
                &&& final(self)@ == e.machine
                &&& final(input)@ == e.input
                &&& final(output)@ == old(output)@ + e.wrote.map_values(
                    |w: Seq<u8>| utf8_lossy(w),
                )
                &&& (match (r, e.snap) {
                    (Some(s), Some(p)) => s.registers@ == p.0 && s.line == p.1,
                    (None, None) => true,
                    _ => false,
                })
            }),
    {
        let ghost m0 = self@;
        let ghost in0 = input@;
        let ghost out0 = output@;
        proof {
            lemma_no_writes_keeps_output(out0);
        }
        if self.halted || self.fault.is_some() || self.pc >= self.prog.len() {
            return None;
        }
        let instr = self.prog[self.pc];
        match instr.op {
            Op::Halt => {
                self.halted = true;
                self.pc = self.pc + 1;
                let regs_copy = copy_regs(&self.regs);
                Some(Snapshot { registers: regs_copy, line: 0 })
            },
            Op::Write(rg) => {
                let v: i64 = if rg < self.regs.len() {
                    self.regs[rg]
                } else {
                    0
                };
                let payload = dec_bytes(v);
                let _count: usize = output.write(payload.as_slice());
                self.pc = self.pc + 1;
                let line: usize = if self.pc < self.prog.len() {
                    self.prog[self.pc].line
                } else {
                    0
                };
                let regs_copy = copy_regs(&self.regs);
                proof {
                    assert(seq![dec_repr(v as int)].map_values(|w: Seq<u8>| utf8_lossy(w))
                        =~= seq![utf8_lossy(dec_repr(v as int))]);
                    assert(out0.push(utf8_lossy(dec_repr(v as int))) =~= out0 + seq![
                        utf8_lossy(dec_repr(v as int)),
                    ]);
                }
                Some(Snapshot { registers: regs_copy, line })
            },
            Op::Read(rg) => {
                match input.read_line() {
                    Err(_) => {
                        self.fault = Some(FaultKind::InputExhausted);
                        None
                    },
                    Ok(lineb) => {
                        match parse_i64(lineb.as_slice()) {
                            None => {
                                self.fault = Some(FaultKind::MalformedNumber);
                                None
                            },
                            Some(v) => {
                                set_reg(&mut self.regs, rg, v);
                                self.pc = self.pc + 1;
                                let line: usize = if self.pc < self.prog.len() {
                                    self.prog[self.pc].line
                                } else {
                                    0
                                };
                                let regs_copy = copy_regs(&self.regs);
                                Some(Snapshot { registers: regs_copy, line })
                            },
                        }
                    },
                }
            },
        }
    }

    /// Consumes the machine: the final register file, and an error message
    /// exactly when the run faulted.
    pub fn into_terminal(self) -> (r: TerminalState)
        ensures
            r.registers@ == self@.regs,
            r.error is Some <==> self@.fault is Some,
    {
        let MiniRam { prog: _, pc: _, regs, halted: _, fault } = self;
        let error: Option<String> = match fault {
            None => None,
            Some(FaultKind::InputExhausted) => Some(String::from_str("input exhausted")),
            Some(FaultKind::MalformedNumber) => Some(
                String::from_str("input is not a 64-bit decimal integer"),
            ),
        };
        TerminalState { registers: regs, error }
    }
}

impl SteppingOracle for MiniRam {
    fn from_source(source: &str) -> (r: Result<MiniRam, String>) {
        MiniRam::compile(source)
    }

    fn step(&mut self, input: &mut CustomReader, output: &mut CustomWriter) -> (r: Option<
        Snapshot,
    >) {
        self.advance(input, output)
    }

    fn finish(self) -> (r: TerminalState) {
        self.into_terminal()
    }
}

/// A step that writes nothing leaves the notification queue as it was.
proof fn lemma_no_writes_keeps_output(out: Seq<Seq<char>>)
    ensures
        out + Seq::<Seq<u8>>::empty().map_values(|w: Seq<u8>| utf8_lossy(w)) == out,
{
    assert(Seq::<Seq<u8>>::empty().map_values(|w: Seq<u8>| utf8_lossy(w)) =~= Seq::<
        Seq<char>,
    >::empty());
    assert(out + Seq::<Seq<char>>::empty() =~= out);
}

/// Stores `v` in register `rg`, growing the file with zeros as needed.
fn set_reg(regs: &mut Vec<i64>, rg: usize, v: i64)
    ensures
        final(regs)@ == grow_set(old(regs)@, rg as int, v),
{
    let ghost r0 = regs@;
    while regs.len() <= rg
        invariant
            r0.len() > rg ==> regs@ == r0,
            r0.len() <= rg ==> regs@.len() <= rg + 1 && regs@ =~= r0 + Seq::new(
                (regs@.len() - r0.len()) as nat,
                |j: int| 0i64,
            ),
            regs@.len() >= r0.len(),
        decreases rg + 1 - regs@.len(),
    {
        regs.push(0);
    }
    proof {
        if r0.len() <= rg {
            assert(regs@.len() == rg + 1);
            assert(regs@ =~= r0 + Seq::new((rg + 1 - r0.len()) as nat, |j: int| 0i64));
        }
    }
    regs[rg] = v;
    proof {
        assert(final(regs)@ =~= grow_set(r0, rg as int, v));
    }
}

/// How many snapshots repeated stepping still emits, given `fuel` steps.
pub open spec fn spec_run_snaps(m: MachineState, input: Seq<u8>, fuel: nat) -> nat
    decreases fuel,
{
    if fuel == 0 {
        0
    } else {
        let e = spec_step(m, input);
        if e.snap is Some {
            1 + spec_run_snaps(e.machine, e.input, (fuel - 1) as nat)
        } else {
            0
        }
    }
}

/// A straight-line program — every remaining instruction a `write`, except
/// that a `halt` may stand last — emits exactly one snapshot per remaining
/// instruction before a step reports termination.
pub proof fn lemma_straight_line_snap_count(m: MachineState, input: Seq<u8>, fuel: nat)
    requires
        !m.halted,
        m.fault is None,
        m.pc <= m.prog.len(),
        forall|j: int|
            m.pc <= j < m.prog.len() ==> ((#[trigger] m.prog[j].op) matches Op::Write(_) || (j
                == m.prog.len() - 1 && m.prog[j].op == Op::Halt)),
        fuel >= m.prog.len() - m.pc,
    ensures
        spec_run_snaps(m, input, fuel) == m.prog.len() - m.pc,
    decreases fuel,
{
    if m.pc < m.prog.len() {
        assert(live(m));
        let e = spec_step(m, input);
        match m.prog[m.pc as int].op {
            Op::Write(_) => {
                lemma_straight_line_snap_count(e.machine, e.input, (fuel - 1) as nat);
            },
            Op::Halt => {
                assert(m.pc == m.prog.len() - 1);
                assert(!live(e.machine));
                assert(spec_run_snaps(e.machine, e.input, (fuel - 1) as nat) == 0);
            },
            Op::Read(_) => {
                assert(false);
            },
        }
    }
}

} // verus!
