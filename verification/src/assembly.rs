//! The assembly module the code generator fills and the serializer
//! renders: fixed header directives, a data region of labeled byte
//! sequences and assemble-time length constants, and a text region of
//! one label plus its instructions per function.
//!
//! Serialization is a pure rendering of these lists into text lines;
//! `spec_serialize_asm` pins every line, so identical instruction and
//! data lists always yield byte-identical output.
use vstd::prelude::*;

verus! {

/// One abstract machine instruction, operands already spelled as text.
#[derive(Debug)]
pub enum Instruction {
    RET,
    CALL { func: String },
    MOVE { dest: String, src: String },
    ADD { dest: String, src: String },
    LOAD { dest: String, addr: String },
    SYSCALL,
    XOR { src1: String, src2: String },
}

/// Mathematical view of [`Instruction`].
#[verifier::ext_equal]
pub ghost enum InstructionV {
    RET,
    CALL { func: Seq<char> },
    MOVE { dest: Seq<char>, src: Seq<char> },
    ADD { dest: Seq<char>, src: Seq<char> },
    LOAD { dest: Seq<char>, addr: Seq<char> },
    SYSCALL,
    XOR { src1: Seq<char>, src2: Seq<char> },
}

impl View for Instruction {
    type V = InstructionV;

    open spec fn view(&self) -> InstructionV {
        match self {
            Instruction::RET => InstructionV::RET,
            Instruction::CALL { func } => InstructionV::CALL { func: func@ },
            Instruction::MOVE { dest, src } => InstructionV::MOVE { dest: dest@, src: src@ },
            Instruction::ADD { dest, src } => InstructionV::ADD { dest: dest@, src: src@ },
            Instruction::LOAD { dest, addr } => InstructionV::LOAD { dest: dest@, addr: addr@ },
            Instruction::SYSCALL => InstructionV::SYSCALL,
            Instruction::XOR { src1, src2 } => InstructionV::XOR { src1: src1@, src2: src2@ },
        }
    }
}

impl DeepView for Instruction {
    type V = InstructionV;

    open spec fn deep_view(&self) -> InstructionV {
        self.view()
    }
}

/// One data-section entry: a labeled byte sequence (`db`) or an
/// assemble-time constant (`equ`).
#[derive(Debug)]
pub enum DataDirective {
    DB { left: String, right: Vec<String> },
    EQUE { left: String, right: Vec<String> },
}

/// Mathematical view of [`DataDirective`].
#[verifier::ext_equal]
pub ghost enum DataDirectiveV {
    DB { left: Seq<char>, right: Seq<Seq<char>> },
    EQUE { left: Seq<char>, right: Seq<Seq<char>> },
}

impl View for DataDirective {
    type V = DataDirectiveV;

    open spec fn view(&self) -> DataDirectiveV {
        match self {
            DataDirective::DB { left, right } => DataDirectiveV::DB {
                left: left@,
                right: right.deep_view(),
            },
            DataDirective::EQUE { left, right } => DataDirectiveV::EQUE {
                left: left@,
                right: right.deep_view(),
            },
        }
    }
}

impl DeepView for DataDirective {
    type V = DataDirectiveV;

    open spec fn deep_view(&self) -> DataDirectiveV {
        self.view()
    }
}

/// One function's code: its label and its instructions in order.
#[derive(Debug)]
pub struct FnCode {
    pub label: String,
    pub instructions: Vec<Instruction>,
}

/// Mathematical view of [`FnCode`].
#[verifier::ext_equal]
pub ghost struct FnCodeV {
    pub label: Seq<char>,
    pub instructions: Seq<InstructionV>,
}

impl View for FnCode {
    type V = FnCodeV;

    open spec fn view(&self) -> FnCodeV {
        FnCodeV { label: self.label@, instructions: self.instructions.deep_view() }
    }
}

impl DeepView for FnCode {
    type V = FnCodeV;

    open spec fn deep_view(&self) -> FnCodeV {
        self.view()
    }
}

/// A whole assembly module: header directives, data section, text
/// section.
#[derive(Debug)]
pub struct AsmCode {
    pub directives: Vec<String>,
    pub text_sec: Vec<FnCode>,
    pub data_sec: Vec<DataDirective>,
}

/// Mathematical view of [`AsmCode`].
#[verifier::ext_equal]
pub ghost struct AsmCodeV {
    pub directives: Seq<Seq<char>>,
    pub text_sec: Seq<FnCodeV>,
    pub data_sec: Seq<DataDirectiveV>,
}

impl View for AsmCode {
    type V = AsmCodeV;

    open spec fn view(&self) -> AsmCodeV {
        AsmCodeV {
            directives: self.directives.deep_view(),
            text_sec: self.text_sec.deep_view(),
            data_sec: self.data_sec.deep_view(),
        }
    }
}

/// The header directives every module carries: the entry-point
/// declaration and the relative-addressing default.
pub open spec fn spec_initial_asm() -> AsmCodeV {
    AsmCodeV {
        directives: seq!["global _main"@, "default rel"@],
        text_sec: Seq::empty(),
        data_sec: Seq::empty(),
    }
}

/// The rendering of one instruction as an indented assembly line.
pub open spec fn spec_serialize_instruction(i: InstructionV) -> Seq<char> {
    match i {
        InstructionV::RET => "    ret"@,
        InstructionV::CALL { func } => "    call "@ + func,
        InstructionV::MOVE { dest, src } => "    mov "@ + dest + ", "@ + src,
        InstructionV::ADD { dest, src } => "    add "@ + dest + ", "@ + src,
        InstructionV::LOAD { dest, addr } => "    lea "@ + dest + ", ["@ + addr + "]"@,
        InstructionV::SYSCALL => "    syscall"@,
        InstructionV::XOR { src1, src2 } => "    xor "@ + src1 + ", "@ + src2,
    }
}

/// Whether a `db` operand is spelled as a hexadecimal immediate, which
/// is emitted bare; anything else is emitted between double quotes.
pub open spec fn spec_is_hex_operand(s: Seq<char>) -> bool {
    s.len() >= 2 && s[0] == '0' && s[1] == 'x'
}

/// One `db` operand as it appears on the line.
pub open spec fn spec_db_operand(s: Seq<char>) -> Seq<char> {
    if spec_is_hex_operand(s) {
        s
    } else {
        "\""@ + s + "\""@
    }
}

/// The comma-joined operand list of a `db` directive.
pub open spec fn spec_db_operands(items: Seq<Seq<char>>) -> Seq<char>
    decreases items.len(),
{
    if items.len() == 0 {
        Seq::empty()
    } else if items.len() == 1 {
        spec_db_operand(items[0])
    } else {
        spec_db_operands(items.drop_last()) + ", "@ + spec_db_operand(items.last())
    }
}

/// The space-joined operand list of an `equ` directive.
pub open spec fn spec_equ_operands(items: Seq<Seq<char>>) -> Seq<char>
    decreases items.len(),
{
    if items.len() == 0 {
        Seq::empty()
    } else if items.len() == 1 {
        items[0]
    } else {
        spec_equ_operands(items.drop_last()) + " "@ + items.last()
    }
}

/// The rendering of one data directive as a line.
pub open spec fn spec_serialize_data(d: DataDirectiveV) -> Seq<char> {
    match d {
        DataDirectiveV::DB { left, right } => "    "@ + left + " db "@ + spec_db_operands(right),
        DataDirectiveV::EQUE { left, right } => "    "@ + left + " equ "@ + spec_equ_operands(
            right,
        ),
    }
}

/// The lines of one function: its label line, then one line per
/// instruction.
pub open spec fn spec_serialize_fn(f: FnCodeV) -> Seq<Seq<char>> {
    seq![f.label + ":"@] + Seq::new(
        f.instructions.len(),
        |i: int| spec_serialize_instruction(f.instructions[i]),
    )
}

/// The lines of the whole text section.
pub open spec fn spec_text_lines(fns: Seq<FnCodeV>) -> Seq<Seq<char>>
    decreases fns.len(),
{
    if fns.len() == 0 {
        Seq::empty()
    } else {
        spec_text_lines(fns.drop_last()) + spec_serialize_fn(fns.last())
    }
}

/// Every line of the rendered module, in order.
pub open spec fn spec_serialize_asm(a: AsmCodeV) -> Seq<Seq<char>> {
    a.directives + seq!["section .data"@] + Seq::new(
        a.data_sec.len(),
        |i: int| spec_serialize_data(a.data_sec[i]),
    ) + seq!["section .text"@] + spec_text_lines(a.text_sec)
}

fn serialize_instruction(ins: &Instruction) -> (r: String)
    ensures
        r@ == spec_serialize_instruction(ins@),
{
    match ins {
        Instruction::RET => String::from_str("    ret"),
        Instruction::CALL { func } => {
            let mut s = String::from_str("    call ");
            s.append(func.as_str());
            s
        },
        Instruction::MOVE { dest, src } => {
            let mut s = String::from_str("    mov ");
            s.append(dest.as_str());
            s.append(", ");
            s.append(src.as_str());
            proof {
                assert(s@ =~= "    mov "@ + dest@ + ", "@ + src@);
            }
            s
        },
        Instruction::ADD { dest, src } => {
            let mut s = String::from_str("    add ");
            s.append(dest.as_str());
            s.append(", ");
            s.append(src.as_str());
            proof {
                assert(s@ =~= "    add "@ + dest@ + ", "@ + src@);
            }
            s
        },
        Instruction::LOAD { dest, addr } => {
            let mut s = String::from_str("    lea ");
            s.append(dest.as_str());
            s.append(", [");
            s.append(addr.as_str());
            s.append("]");
            proof {
                assert(s@ =~= "    lea "@ + dest@ + ", ["@ + addr@ + "]"@);
            }
            s
        },
        Instruction::SYSCALL => String::from_str("    syscall"),
        Instruction::XOR { src1, src2 } => {
            let mut s = String::from_str("    xor ");
            s.append(src1.as_str());
            s.append(", ");
            s.append(src2.as_str());
            proof {
                assert(s@ =~= "    xor "@ + src1@ + ", "@ + src2@);
            }
            s
        },
    }
}

/// Appends one `db`/`equ` operand list to `line`.
fn append_operands(line: &mut String, items: &Vec<String>, quote: bool)
    ensures
        quote ==> final(line)@ == old(line)@ + spec_db_operands(items.deep_view()),
        !quote ==> final(line)@ == old(line)@ + spec_equ_operands(items.deep_view()),
{
    let ghost base = line@;
    let ghost dv = items.deep_view();
    let n = items.len();
    let mut idx: usize = 0;
    proof {
        assert(dv.take(0) =~= Seq::<Seq<char>>::empty());
        assert(line@ =~= base + Seq::<char>::empty());
    }
    while idx < n
        invariant
            idx <= n,
            n == items@.len(),
            dv == items.deep_view(),
            dv.len() == n,
            quote ==> line@ == base + spec_db_operands(dv.take(idx as int)),
            !quote ==> line@ == base + spec_equ_operands(dv.take(idx as int)),
        decreases n - idx,
    {
        proof {
            assert(dv[idx as int] == items@[idx as int]@);
            assert(dv.take(idx as int + 1).drop_last() =~= dv.take(idx as int));
            assert(dv.take(idx as int + 1).last() == dv[idx as int]);
        }
        if idx > 0 {
            if quote {
                line.append(", ");
            } else {
                line.append(" ");
            }
        }
        let item = &items[idx];
        if quote {
            let hex = item.as_str().unicode_len() >= 2 && item.as_str().get_char(0) == '0'
                && item.as_str().get_char(1) == 'x';
            if hex {
                line.append(item.as_str());
            } else {
                line.append("\"");
                line.append(item.as_str());
                line.append("\"");
            }
            proof {
                if idx == 0 {
                    assert(line@ =~= base + spec_db_operands(dv.take(1)));
                } else {
                    assert(line@ =~= base + spec_db_operands(dv.take(idx as int + 1)));
                }
            }
        } else {
            line.append(item.as_str());
            proof {
                if idx == 0 {
                    assert(line@ =~= base + spec_equ_operands(dv.take(1)));
                } else {
                    assert(line@ =~= base + spec_equ_operands(dv.take(idx as int + 1)));
                }
            }
        }
        idx = idx + 1;
    }
    proof {
        assert(dv.take(n as int) =~= dv);
    }
}

fn serialize_data(d: &DataDirective) -> (r: String)
    ensures
        r@ == spec_serialize_data(d@),
{
    match d {
        DataDirective::DB { left, right } => {
            let mut s = String::from_str("    ");
            s.append(left.as_str());
            s.append(" db ");
            proof {
                assert(s@ =~= "    "@ + left@ + " db "@);
            }
            append_operands(&mut s, right, true);
            s
        },
        DataDirective::EQUE { left, right } => {
            let mut s = String::from_str("    ");
            s.append(left.as_str());
            s.append(" equ ");
            proof {
                assert(s@ =~= "    "@ + left@ + " equ "@);
            }
            append_operands(&mut s, right, false);
            s
        },
    }
}

impl AsmCode {
    /// An empty module holding only the fixed header directives.
    pub fn new() -> (r: AsmCode)
        ensures
            r@ == spec_initial_asm(),
    {
        let mut directives: Vec<String> = Vec::new();
        directives.push(String::from_str("global _main"));
        directives.push(String::from_str("default rel"));
        let r = AsmCode { directives, text_sec: Vec::new(), data_sec: Vec::new() };
        proof {
            assert(r@.directives =~= spec_initial_asm().directives);
            assert(r@.text_sec =~= spec_initial_asm().text_sec);
            assert(r@.data_sec =~= spec_initial_asm().data_sec);
            assert(r@ =~= spec_initial_asm());
        }
        r
    }

    /// Renders the module into its assembly lines, every line pinned by
    /// [`spec_serialize_asm`].
    pub fn serialize(&self) -> (r: Vec<String>)
        ensures
            r.deep_view() == spec_serialize_asm(self@),
    {
        let ghost goal = spec_serialize_asm(self@);
        let mut asm_lines: Vec<String> = Vec::new();
        let mut idx: usize = 0;
        let n_dir = self.directives.len();
        while idx < n_dir
            invariant
                idx <= n_dir,
                n_dir == self.directives@.len(),
                asm_lines.deep_view() =~= self.directives.deep_view().take(idx as int),
            decreases n_dir - idx,
        {
            let ghost before = asm_lines.deep_view();
            proof {
                assert(self.directives.deep_view()[idx as int] == self.directives@[idx as int]@);
            }
            asm_lines.push(self.directives[idx].clone());
            proof {
                assert(asm_lines.deep_view() =~= before.push(self.directives@[idx as int]@));
                assert(asm_lines.deep_view() =~= self.directives.deep_view().take(idx as int + 1));
            }
            idx = idx + 1;
        }
        proof {
            assert(self.directives.deep_view().take(n_dir as int) =~= self.directives.deep_view());
        }
        asm_lines.push(String::from_str("section .data"));
        let ghost data_goal = Seq::new(
            self@.data_sec.len(),
            |i: int| spec_serialize_data(self@.data_sec[i]),
        );
        let n_data = self.data_sec.len();
        let mut jdx: usize = 0;
        while jdx < n_data
            invariant
                jdx <= n_data,
                n_data == self.data_sec@.len(),
                data_goal == Seq::new(
                    self@.data_sec.len(),
                    |i: int| spec_serialize_data(self@.data_sec[i]),
                ),
                asm_lines.deep_view() =~= self.directives.deep_view() + seq!["section .data"@]
                    + data_goal.take(jdx as int),
            decreases n_data - jdx,
        {
            let ghost before = asm_lines.deep_view();
            let line = serialize_data(&self.data_sec[jdx]);
            proof {
                assert(self.data_sec.deep_view()[jdx as int] == self.data_sec@[jdx as int]@);
                assert(self@.data_sec[jdx as int] == self.data_sec@[jdx as int]@);
            }
            asm_lines.push(line);
            proof {
                assert(asm_lines.deep_view() =~= before.push(
                    spec_serialize_data(self@.data_sec[jdx as int]),
                ));
                assert(asm_lines.deep_view() =~= self.directives.deep_view() + seq![
                    "section .data"@,
                ] + data_goal.take(jdx as int + 1));
            }
            jdx = jdx + 1;
        }
        proof {
            assert(data_goal.take(n_data as int) =~= data_goal);
        }
        asm_lines.push(String::from_str("section .text"));
        let ghost head = self.directives.deep_view() + seq!["section .data"@] + data_goal + seq![
            "section .text"@,
        ];
        proof {
            assert(asm_lines.deep_view() =~= head + spec_text_lines(Seq::empty()));
        }
        let n_text = self.text_sec.len();
        let mut kdx: usize = 0;
        while kdx < n_text
            invariant
                kdx <= n_text,
                n_text == self.text_sec@.len(),
                head == self.directives.deep_view() + seq!["section .data"@] + data_goal + seq![
                    "section .text"@,
                ],
                asm_lines.deep_view() =~= head + spec_text_lines(
                    self.text_sec.deep_view().take(kdx as int),
                ),
            decreases n_text - kdx,
        {
            let ghost before = asm_lines.deep_view();
            let fn_code = &self.text_sec[kdx];
            proof {
                assert(self.text_sec.deep_view()[kdx as int] == self.text_sec@[kdx as int]@);
            }
            let mut label_line = fn_code.label.clone();
            label_line.append(":");
            asm_lines.push(label_line);
            let ghost fv = self.text_sec@[kdx as int]@;
            proof {
                assert(asm_lines.deep_view() =~= before.push(fv.label + ":"@));
            }
            let n_ins = fn_code.instructions.len();
            let mut ldx: usize = 0;
            let ghost ins_goal = Seq::new(
                fv.instructions.len(),
                |i: int| spec_serialize_instruction(fv.instructions[i]),
            );
            while ldx < n_ins
                invariant
                    ldx <= n_ins,
                    n_ins == fn_code.instructions@.len(),
                    fv == fn_code@,
                    ins_goal == Seq::new(
                        fv.instructions.len(),
                        |i: int| spec_serialize_instruction(fv.instructions[i]),
                    ),
                    asm_lines.deep_view() =~= before.push(fv.label + ":"@) + ins_goal.take(
                        ldx as int,
                    ),
                decreases n_ins - ldx,
            {
                let ghost mid = asm_lines.deep_view();
                let line = serialize_instruction(&fn_code.instructions[ldx]);
                proof {
                    assert(fv.instructions[ldx as int] == fn_code.instructions@[ldx as int]@);
                }
                asm_lines.push(line);
                proof {
                    assert(asm_lines.deep_view() =~= mid.push(
                        spec_serialize_instruction(fv.instructions[ldx as int]),
                    ));
                    assert(asm_lines.deep_view() =~= before.push(fv.label + ":"@) + ins_goal.take(
                        ldx as int + 1,
                    ));
                }
                ldx = ldx + 1;
            }
            proof {
                assert(ins_goal.take(n_ins as int) =~= ins_goal);
                assert(spec_serialize_fn(fv) =~= seq![fv.label + ":"@] + ins_goal);
                assert(self.text_sec.deep_view().take(kdx as int + 1).drop_last()
                    =~= self.text_sec.deep_view().take(kdx as int));
                assert(self.text_sec.deep_view().take(kdx as int + 1).last() == fv);
                assert(asm_lines.deep_view() =~= head + spec_text_lines(
                    self.text_sec.deep_view().take(kdx as int + 1),
                ));
            }
            kdx = kdx + 1;
        }
        proof {
            assert(self.text_sec.deep_view().take(n_text as int) =~= self.text_sec.deep_view());
            assert(asm_lines.deep_view() =~= goal);
        }
        asm_lines
    }
}

} // verus!
