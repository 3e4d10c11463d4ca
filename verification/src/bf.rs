//! An interpreter for Brainfuck on a tape of 1024 wrapping byte cells,
//! with bounds on the work it does.

use vstd::prelude::*;
use vstd::string::*;
use vstd::std_specs::convert::FromSpecImpl;
use crate::text::{chars_of, push_char};

verus! {

/// One command of a program; every character that is none of the eight is
/// `Invalid` and does nothing.
#[derive(Clone, Copy, Debug, PartialEq, Eq, Structural)]
pub enum BrainfuckCommand {
    MoveRight,
    MoveLeft,
    Increment,
    Decrement,
    Output,
    Input,
    LoopStart,
    LoopEnd,
    Invalid,
}

/// Why a program was stopped.
#[derive(Clone, Copy, Debug, PartialEq, Eq, Structural)]
pub enum Fault {
    /// A loop that was to be skipped nests deeper than `MAX_LOOP_DEPTH`.
    LoopTooDeep,
    /// A loop that was to be skipped is longer than `MAX_LOOP_COUNT`.
    LoopTooLong,
    /// A cell off the tape was read or written.
    OffTape,
    /// A loop that was to be skipped does not end.
    UnmatchedLoopStart,
    /// A loop was to be repeated that never began.
    UnmatchedLoopEnd,
    /// The program went back to the head of a loop more than `MAX_JUMPS`
    /// times.
    TooManyJumps,
}

/// The longest loop body, closing bracket included, that is skipped.
pub const MAX_LOOP_COUNT: usize = 1024;

/// The deepest nesting inside a loop that is skipped.
pub const MAX_LOOP_DEPTH: usize = 1024;

/// The number of cells of the tape.
pub const MEMORY_SIZE: usize = 1024;

/// How often a program may go back to the head of a loop.
pub const MAX_JUMPS: usize = 1000000;

/// The command that a character stands for.
pub open spec fn command_of(c: char) -> BrainfuckCommand {
    if c == '>' {
        BrainfuckCommand::MoveRight
    } else if c == '<' {
        BrainfuckCommand::MoveLeft
    } else if c == '+' {
        BrainfuckCommand::Increment
    } else if c == '-' {
        BrainfuckCommand::Decrement
    } else if c == '.' {
        BrainfuckCommand::Output
    } else if c == ',' {
        BrainfuckCommand::Input
    } else if c == '[' {
        BrainfuckCommand::LoopStart
    } else if c == ']' {
        BrainfuckCommand::LoopEnd
    } else {
        BrainfuckCommand::Invalid
    }
}

impl From<char> for BrainfuckCommand {
    fn from(c: char) -> (command: Self) {
        match c {
            '>' => Self::MoveRight,
            '<' => Self::MoveLeft,
            '+' => Self::Increment,
            '-' => Self::Decrement,
            '.' => Self::Output,
            ',' => Self::Input,
            '[' => Self::LoopStart,
            ']' => Self::LoopEnd,
            _ => Self::Invalid,
        }
    }
}

impl FromSpecImpl<char> for BrainfuckCommand {
    open spec fn obeys_from_spec() -> bool {
        true
    }

    open spec fn from_spec(c: char) -> Self {
        command_of(c)
    }
}

/// The commands of a program text, one for each character.
pub fn parse_program(text: &str) -> (code: Vec<BrainfuckCommand>)
    ensures
        code@ == text@.map_values(|c: char| command_of(c)),
{
    let chars = chars_of(text);
    let mut code: Vec<BrainfuckCommand> = Vec::new();
    let mut i: usize = 0;
    while i < chars.len()
        invariant
            i <= chars.len(),
            chars@ == text@,
            code@ == text@.take(i as int).map_values(|c: char| command_of(c)),
        decreases chars.len() - i,
    {
        code.push(BrainfuckCommand::from(chars[i]));
        assert(code@ =~= text@.take(i + 1).map_values(|c: char| command_of(c)));
        i = i + 1;
    }
    assert(text@.take(i as int) =~= text@);
    code
}

/// The machine between two commands.
pub ghost struct Machine {
    /// The index of the next command.
    pub code_pointer: nat,
    /// The index of the current cell; it wraps around the range of `usize`
    /// and may lie off the tape as long as no cell is touched.
    pub memory_pointer: usize,
    /// The tape.
    pub memory: Seq<u8>,
    /// How many characters of the input have been read.
    pub consumed: nat,
    /// What has been written.
    pub output: Seq<char>,
    /// The positions of the loops that have been entered and not left.
    pub loop_stack: Seq<usize>,
}

/// The byte that a character of the input is read as: the character where
/// the low 16 bits of its code are at most 255, and `?` otherwise.
pub open spec fn input_byte(c: char) -> u8 {
    if (c as u32) % 0x10000 > 255 {
        63
    } else {
        ((c as u32) % 0x10000) as u8
    }
}

/// Where the loop that is being skipped ends, scanning on from the command
/// after `position` at nesting `depth`, with `count` commands scanned.
pub open spec fn skip_loop(code: Seq<BrainfuckCommand>, position: int, depth: int, count: int)
    -> Result<int, Fault>
    decreases code.len() - position,
{
    if position + 1 >= code.len() {
        Err(Fault::UnmatchedLoopStart)
    } else {
        let depth = match code[position + 1] {
            BrainfuckCommand::LoopStart => depth + 1,
            BrainfuckCommand::LoopEnd => depth - 1,
            _ => depth,
        };
        if depth > MAX_LOOP_DEPTH {
            Err(Fault::LoopTooDeep)
        } else if count + 1 > MAX_LOOP_COUNT {
            Err(Fault::LoopTooLong)
        } else if depth <= 0 {
            Ok(position + 1)
        } else {
            skip_loop(code, position + 1, depth, count + 1)
        }
    }
}

impl Machine {
    /// The machine before the first command.
    pub open spec fn initial() -> Machine {
        Machine {
            code_pointer: 0,
            memory_pointer: 0,
            memory: Seq::new(MEMORY_SIZE as nat, |i: int| 0u8),
            consumed: 0,
            output: Seq::empty(),
            loop_stack: Seq::empty(),
        }
    }

    /// The current cell is on the tape.
    pub open spec fn on_tape(self) -> bool {
        self.memory_pointer < self.memory.len()
    }

    /// The value of the current cell.
    pub open spec fn cell(self) -> u8 {
        self.memory[self.memory_pointer as int]
    }

    /// The machine with `value` in the current cell.
    pub open spec fn with_cell(self, value: u8) -> Machine {
        Machine { memory: self.memory.update(self.memory_pointer as int, value), ..self }
    }

    /// The machine with the next command at `position`.
    pub open spec fn at(self, position: nat) -> Machine {
        Machine { code_pointer: position, ..self }
    }

    /// The machine after the command at its code pointer.
    pub open spec fn step(self, code: Seq<BrainfuckCommand>, input: Seq<char>) -> Result<
        Machine,
        Fault,
    > {
        let next = self.at(self.code_pointer + 1);
        match code[self.code_pointer as int] {
            BrainfuckCommand::MoveRight => Ok(
                Machine {
                    memory_pointer: if self.memory_pointer == usize::MAX {
                        0
                    } else {
                        (self.memory_pointer + 1) as usize
                    },
                    ..next
                },
            ),
            BrainfuckCommand::MoveLeft => Ok(
                Machine {
                    memory_pointer: if self.memory_pointer == 0 {
                        usize::MAX
                    } else {
                        (self.memory_pointer - 1) as usize
                    },
                    ..next
                },
            ),
            BrainfuckCommand::Increment => if !self.on_tape() {
                Err(Fault::OffTape)
            } else {
                Ok(
                    next.with_cell(
                        if self.cell() == 255 {
                            0
                        } else {
                            (self.cell() + 1) as u8
                        },
                    ),
                )
            },
            BrainfuckCommand::Decrement => if !self.on_tape() {
                Err(Fault::OffTape)
            } else {
                Ok(
                    next.with_cell(
                        if self.cell() == 0 {
                            255
                        } else {
                            (self.cell() - 1) as u8
                        },
                    ),
                )
            },
            BrainfuckCommand::Output => if !self.on_tape() {
                Err(Fault::OffTape)
            } else {
                Ok(Machine { output: self.output.push(self.cell() as char), ..next })
            },
            BrainfuckCommand::Input => if !self.on_tape() {
                Err(Fault::OffTape)
            } else if self.consumed < input.len() {
                Ok(
                    Machine { consumed: self.consumed + 1, ..next }.with_cell(
                        input_byte(input[self.consumed as int]),
                    ),
                )
            } else {
                Ok(next.with_cell(0))
            },
            BrainfuckCommand::LoopStart => if !self.on_tape() {
                Err(Fault::OffTape)
            } else if self.cell() == 0 {
                match skip_loop(code, self.code_pointer as int, 1, 0) {
                    Ok(end) => Ok(self.at((end + 1) as nat)),
                    Err(fault) => Err(fault),
                }
            } else {
                Ok(Machine { loop_stack: self.loop_stack.push(self.code_pointer as usize), ..next })
            },
            BrainfuckCommand::LoopEnd => if !self.on_tape() {
                Err(Fault::OffTape)
            } else if self.cell() != 0 {
                if self.loop_stack.len() == 0 {
                    Err(Fault::UnmatchedLoopEnd)
                } else {
                    Ok(self.at((self.loop_stack.last() + 1) as nat))
                }
            } else if self.loop_stack.len() == 0 {
                Ok(next)
            } else {
                Ok(Machine { loop_stack: self.loop_stack.drop_last(), ..next })
            },
            BrainfuckCommand::Invalid => Ok(next),
        }
    }

    /// The command at the code pointer sends the machine back to the head
    /// of a loop: it is a `]` on a cell that is not 0.
    pub open spec fn repeats(self, code: Seq<BrainfuckCommand>) -> bool {
        code[self.code_pointer as int] == BrainfuckCommand::LoopEnd && self.on_tape() && self.cell()
            != 0
    }

    /// What the program writes when it runs on from this machine and may
    /// go back to the head of a loop `jumps` times. Commands that go on to
    /// a later command cost nothing, however many there are.
    pub open spec fn run(self, code: Seq<BrainfuckCommand>, input: Seq<char>, jumps: nat) -> Result<
        Seq<char>,
        Fault,
    >
        decreases jumps, code.len() - self.code_pointer,
    {
        if self.code_pointer >= code.len() {
            Ok(self.output)
        } else {
            match self.step(code, input) {
                Err(fault) => Err(fault),
                Ok(next) => if self.repeats(code) {
                    if jumps == 0 {
                        Err(Fault::TooManyJumps)
                    } else {
                        next.run(code, input, (jumps - 1) as nat)
                    }
                } else {
                    proof {
                        lemma_step_goes_on(self, code, input);
                    }
                    next.run(code, input, jumps)
                },
            }
        }
    }
}

/// The end of a loop that is skipped lies after its beginning, in the
/// program.
pub proof fn lemma_skip_loop_goes_on(
    code: Seq<BrainfuckCommand>,
    position: int,
    depth: int,
    count: int,
)
    requires
        0 <= position,
    ensures
        skip_loop(code, position, depth, count) matches Ok(end) ==> position < end < code.len(),
    decreases code.len() - position,
{
    if position + 1 < code.len() {
        let deeper = match code[position + 1] {
            BrainfuckCommand::LoopStart => depth + 1,
            BrainfuckCommand::LoopEnd => depth - 1,
            _ => depth,
        };
        if deeper <= MAX_LOOP_DEPTH && count + 1 <= MAX_LOOP_COUNT && deeper > 0 {
            lemma_skip_loop_goes_on(code, position + 1, deeper, count + 1);
        }
    }
}

/// A command that does not send the machine back leaves it at a later
/// command.
pub proof fn lemma_step_goes_on(machine: Machine, code: Seq<BrainfuckCommand>, input: Seq<char>)
    requires
        machine.code_pointer < code.len(),
        !machine.repeats(code),
    ensures
        machine.step(code, input) matches Ok(next) ==> machine.code_pointer < next.code_pointer
            <= code.len(),
{
    lemma_skip_loop_goes_on(code, machine.code_pointer as int, 1, 0);
}

/// The program has no loop.
pub open spec fn loop_free(code: Seq<BrainfuckCommand>) -> bool {
    forall|i: int|
        0 <= i < code.len() ==> #[trigger] code[i] != BrainfuckCommand::LoopStart && code[i]
            != BrainfuckCommand::LoopEnd
}

/// A machine in a program without loops writes what the machine writes
/// that stands at the same command of the program with one more command
/// that does nothing, however many jumps either may make.
proof fn lemma_no_op_is_passed(
    machine: Machine,
    code: Seq<BrainfuckCommand>,
    input: Seq<char>,
    at: int,
    offset: int,
    jumps: nat,
    other_jumps: nat,
)
    requires
        loop_free(code),
        0 <= at <= code.len(),
        machine.code_pointer <= code.len(),
        offset == 0 || offset == 1,
        offset == 0 ==> machine.code_pointer <= at,
        offset == 1 ==> machine.code_pointer >= at,
    ensures
        machine.run(code, input, jumps) == machine.at((machine.code_pointer + offset) as nat).run(
            code.insert(at, BrainfuckCommand::Invalid),
            input,
            other_jumps,
        ),
    decreases code.len() - machine.code_pointer, 1 - offset,
{
    let longer = code.insert(at, BrainfuckCommand::Invalid);
    let moved = machine.at((machine.code_pointer + offset) as nat);
    assert(longer.len() == code.len() + 1);
    if offset == 0 && machine.code_pointer == at {
        assert(longer[at] == BrainfuckCommand::Invalid);
        assert(!moved.repeats(longer));
        assert(moved.step(longer, input) == Ok::<Machine, Fault>(machine.at((at + 1) as nat)));
        lemma_no_op_is_passed(machine, code, input, at, 1, jumps, other_jumps);
    } else if machine.code_pointer < code.len() {
        let command = code[machine.code_pointer as int];
        assert(longer[machine.code_pointer + offset] == command);
        assert(command != BrainfuckCommand::LoopStart && command != BrainfuckCommand::LoopEnd);
        assert(!machine.repeats(code) && !moved.repeats(longer));
        match machine.step(code, input) {
            Ok(next) => {
                assert(moved.step(longer, input) == Ok::<Machine, Fault>(
                    next.at((next.code_pointer + offset) as nat),
                ));
                assert(next.code_pointer == machine.code_pointer + 1);
                lemma_no_op_is_passed(next, code, input, at, offset, jumps, other_jumps);
            },
            Err(fault) => {
                assert(moved.step(longer, input) == Err::<Machine, Fault>(fault));
            },
        }
    }
}

/// A command that does nothing, put anywhere into a program without
/// loops, changes nothing of what the program writes; so neither do any
/// number of them, one after the other.
pub proof fn lemma_no_op_changes_nothing(code: Seq<BrainfuckCommand>, input: Seq<char>, at: int)
    requires
        loop_free(code),
        0 <= at <= code.len(),
    ensures
        loop_free(code.insert(at, BrainfuckCommand::Invalid)),
        interpretation(code.insert(at, BrainfuckCommand::Invalid), input) == interpretation(
            code,
            input,
        ),
{
    let longer = code.insert(at, BrainfuckCommand::Invalid);
    lemma_no_op_is_passed(Machine::initial(), code, input, at, 0, MAX_JUMPS as nat, MAX_JUMPS as nat);
    assert(Machine::initial().at(0) == Machine::initial());
    assert forall|i: int| 0 <= i < longer.len() implies #[trigger] longer[i]
        != BrainfuckCommand::LoopStart && longer[i] != BrainfuckCommand::LoopEnd by {
        if i < at {
            assert(longer[i] == code[i]);
        } else if i > at {
            assert(longer[i] == code[i - 1]);
        }
    }
}

/// A program without loops is never stopped for its jumps, and runs the
/// same whatever the number of jumps it may make.
pub proof fn lemma_loop_free_needs_no_jumps(
    machine: Machine,
    code: Seq<BrainfuckCommand>,
    input: Seq<char>,
    jumps: nat,
)
    requires
        loop_free(code),
    ensures
        machine.run(code, input, jumps) == machine.run(code, input, 0),
        machine.run(code, input, jumps) != Err::<Seq<char>, Fault>(Fault::TooManyJumps),
    decreases code.len() - machine.code_pointer,
{
    if machine.code_pointer < code.len() {
        let command = code[machine.code_pointer as int];
        assert(command != BrainfuckCommand::LoopStart && command != BrainfuckCommand::LoopEnd);
        match machine.step(code, input) {
            Ok(next) => {
                assert(next.code_pointer == machine.code_pointer + 1);
                lemma_loop_free_needs_no_jumps(next, code, input, jumps);
            },
            Err(fault) => {},
        }
    }
}

/// What a program writes on an input, or why it was stopped.
pub open spec fn interpretation(code: Seq<BrainfuckCommand>, input: Seq<char>) -> Result<
    Seq<char>,
    Fault,
> {
    Machine::initial().run(code, input, MAX_JUMPS as nat)
}

/// The message for a fault.
pub open spec fn fault_text(fault: Fault) -> Seq<char> {
    match fault {
        Fault::LoopTooDeep => "ループが深すぎるよ！"@,
        Fault::LoopTooLong => "ループが多すぎるよ！　無限ループじゃない？"@,
        Fault::OffTape => "メモリの外だよ！"@,
        Fault::UnmatchedLoopStart => "[ に対応する ] がないよ！"@,
        Fault::UnmatchedLoopEnd => "] に対応する [ がないよ！"@,
        Fault::TooManyJumps => "時間がかかりすぎだよ！"@,
    }
}

/// The message for a fault, as a string.
pub fn fault_message(fault: Fault) -> (text: String)
    ensures
        text@ == fault_text(fault),
{
    match fault {
        Fault::LoopTooDeep => "ループが深すぎるよ！".to_owned(),
        Fault::LoopTooLong => "ループが多すぎるよ！　無限ループじゃない？".to_owned(),
        Fault::OffTape => "メモリの外だよ！".to_owned(),
        Fault::UnmatchedLoopStart => "[ に対応する ] がないよ！".to_owned(),
        Fault::UnmatchedLoopEnd => "] に対応する [ がないよ！".to_owned(),
        Fault::TooManyJumps => "時間がかかりすぎだよ！".to_owned(),
    }
}

/// Finds the end of the loop that begins at `start` and is to be skipped.
fn find_loop_end(code: &Vec<BrainfuckCommand>, start: usize) -> (end: Result<usize, Fault>)
    requires
        start < code.len(),
    ensures
        match skip_loop(code@, start as int, 1, 0) {
            Ok(position) => end == Ok::<usize, Fault>(position as usize) && 0 <= position < code.len(),
            Err(fault) => end == Err::<usize, Fault>(fault),
        },
{
    let mut position: usize = start;
    let mut depth: usize = 1;
    let mut count: usize = 0;
    loop
        invariant
            position < code.len(),
            1 <= depth <= MAX_LOOP_DEPTH,
            count <= MAX_LOOP_COUNT,
            skip_loop(code@, position as int, depth as int, count as int) == skip_loop(
                code@,
                start as int,
                1,
                0,
            ),
        decreases code.len() - position,
    {
        if position + 1 >= code.len() {
            return Err(Fault::UnmatchedLoopStart);
        }
        position = position + 1;
        count = count + 1;
        match code[position] {
            BrainfuckCommand::LoopStart => {
                depth = depth + 1;
            },
            BrainfuckCommand::LoopEnd => {
                depth = depth - 1;
            },
            _ => {},
        }
        if depth > MAX_LOOP_DEPTH {
            return Err(Fault::LoopTooDeep);
        }
        if count > MAX_LOOP_COUNT {
            return Err(Fault::LoopTooLong);
        }
        if depth == 0 {
            return Ok(position);
        }
    }
}

/// The byte that a character of the input is read as.
fn read_byte(c: char) -> (byte: u8)
    ensures
        byte == input_byte(c),
{
    let low: u32 = (c as u32) % 0x10000;
    if low > 255 {
        63
    } else {
        low as u8
    }
}

/// Runs a program on an input. `Ok` holds what the program wrote, a byte
/// being written as the character of that code; `Err` holds the message
/// of the fault that stopped it.
pub fn interpreter(code: Vec<BrainfuckCommand>, input: &str) -> (result: Result<String, String>)
    ensures
        match interpretation(code@, input@) {
            Ok(output) => result matches Ok(text) && text@ == output,
            Err(fault) => result matches Err(text) && text@ == fault_text(fault),
        },
{
    let input_chars = chars_of(input);
    let mut code_pointer: usize = 0;
    let mut memory_pointer: usize = 0;
    let mut memory: Vec<u8> = vec![0u8; MEMORY_SIZE];
    let mut consumed: usize = 0;
    let mut output = String::new();
    let mut loop_stack: Vec<usize> = Vec::new();
    let mut jumps_left: usize = MAX_JUMPS;
    let ghost mut machine = Machine::initial();
    assert(memory@ =~= machine.memory);
    while code_pointer < code.len()
        invariant
            input_chars@ == input@,
            machine == (Machine {
                code_pointer: code_pointer as nat,
                memory_pointer,
                memory: memory@,
                consumed: consumed as nat,
                output: output@,
                loop_stack: loop_stack@,
            }),
            memory@.len() == MEMORY_SIZE,
            consumed <= input_chars.len(),
            forall|i: int| 0 <= i < loop_stack@.len() ==> loop_stack@[i] < code.len(),
            jumps_left <= MAX_JUMPS,
            machine.run(code@, input@, jumps_left as nat) == interpretation(code@, input@),
        decreases jumps_left, code.len() - code_pointer,
    {
        let ghost before = machine;
        match code[code_pointer] {
            BrainfuckCommand::MoveRight => {
                memory_pointer = if memory_pointer == usize::MAX {
                    0
                } else {
                    memory_pointer + 1
                };
                code_pointer = code_pointer + 1;
            },
            BrainfuckCommand::MoveLeft => {
                memory_pointer = if memory_pointer == 0 {
                    usize::MAX
                } else {
                    memory_pointer - 1
                };
                code_pointer = code_pointer + 1;
            },
            BrainfuckCommand::Increment => {
                if memory_pointer >= MEMORY_SIZE {
                    return Err(fault_message(Fault::OffTape));
                }
                let cell: u8 = memory[memory_pointer];
                memory.set(
                    memory_pointer,
                    if cell == 255 {
                        0
                    } else {
                        cell + 1
                    },
                );
                code_pointer = code_pointer + 1;
            },
            BrainfuckCommand::Decrement => {
                if memory_pointer >= MEMORY_SIZE {
                    return Err(fault_message(Fault::OffTape));
                }
                let cell: u8 = memory[memory_pointer];
                memory.set(
                    memory_pointer,
                    if cell == 0 {
                        255
                    } else {
                        cell - 1
                    },
                );
                code_pointer = code_pointer + 1;
            },
            BrainfuckCommand::Output => {
                if memory_pointer >= MEMORY_SIZE {
                    return Err(fault_message(Fault::OffTape));
                }
                push_char(&mut output, memory[memory_pointer] as char);
                code_pointer = code_pointer + 1;
            },
            BrainfuckCommand::Input => {
                if memory_pointer >= MEMORY_SIZE {
                    return Err(fault_message(Fault::OffTape));
                }
                if consumed < input_chars.len() {
                    memory.set(memory_pointer, read_byte(input_chars[consumed]));
                    consumed = consumed + 1;
                } else {
                    memory.set(memory_pointer, 0);
                }
                code_pointer = code_pointer + 1;
            },
            BrainfuckCommand::LoopStart => {
                if memory_pointer >= MEMORY_SIZE {
                    return Err(fault_message(Fault::OffTape));
                }
                if memory[memory_pointer] == 0 {
                    match find_loop_end(&code, code_pointer) {
                        Ok(end) => {
                            code_pointer = end + 1;
                        },
                        Err(fault) => {
                            return Err(fault_message(fault));
                        },
                    }
                } else {
                    loop_stack.push(code_pointer);
                    code_pointer = code_pointer + 1;
                }
            },
            BrainfuckCommand::LoopEnd => {
                if memory_pointer >= MEMORY_SIZE {
                    return Err(fault_message(Fault::OffTape));
                }
                if memory[memory_pointer] != 0 {
                    if loop_stack.len() == 0 {
                        return Err(fault_message(Fault::UnmatchedLoopEnd));
                    }
                    if jumps_left == 0 {
                        return Err(fault_message(Fault::TooManyJumps));
                    }
                    jumps_left = jumps_left - 1;
                    code_pointer = loop_stack[loop_stack.len() - 1] + 1;
                } else {
                    loop_stack.pop();
                    code_pointer = code_pointer + 1;
                }
            },
            BrainfuckCommand::Invalid => {
                code_pointer = code_pointer + 1;
            },
        }
        proof {
            machine = Machine {
                code_pointer: code_pointer as nat,
                memory_pointer,
                memory: memory@,
                consumed: consumed as nat,
                output: output@,
                loop_stack: loop_stack@,
            };
            assert(before.step(code@, input@) == Ok::<Machine, Fault>(machine));
            if !before.repeats(code@) {
                lemma_step_goes_on(before, code@, input@);
            }
        }
    }
    Ok(output)
}

/// The value of an option of a slash command, as far as the command reads
/// it: a text, or something else.
#[derive(Clone, Debug, PartialEq, Eq)]
pub enum OptionValue {
    Text(String),
    Other,
}

/// An option that a slash command declares; its value is a text.
#[derive(Clone, Debug, PartialEq, Eq)]
pub struct CommandOption {
    pub name: String,
    pub description: String,
    pub required: bool,
}

/// A slash command as it is declared to the chat service.
#[derive(Clone, Debug, PartialEq, Eq)]
pub struct CommandDescription {
    pub name: String,
    pub description: String,
    pub options: Vec<CommandOption>,
}

/// The declaration of the `bf` command: the program, which must be given,
/// and its input, which may be.
pub fn register() -> (command: CommandDescription)
    ensures
        command.name@ == "bf"@,
        command.description@ == "Brainfuckを実行するよ"@,
        command.options@.len() == 2,
        command.options@[0].name@ == "code"@,
        command.options@[0].description@ == "Brainfuckのコード"@,
        command.options@[0].required,
        command.options@[1].name@ == "input"@,
        command.options@[1].description@ == "入力する文字列"@,
        !command.options@[1].required,
{
    let mut options: Vec<CommandOption> = Vec::new();
    options.push(
        CommandOption {
            name: "code".to_owned(),
            description: "Brainfuckのコード".to_owned(),
            required: true,
        },
    );
    options.push(
        CommandOption {
            name: "input".to_owned(),
            description: "入力する文字列".to_owned(),
            required: false,
        },
    );
    CommandDescription {
        name: "bf".to_owned(),
        description: "Brainfuckを実行するよ".to_owned(),
        options,
    }
}

/// The text of the option at `index`, if there is one and it is a text.
pub open spec fn option_text(options: Seq<OptionValue>, index: int) -> Option<Seq<char>> {
    if 0 <= index < options.len() {
        match options[index] {
            OptionValue::Text(text) => Some(text@),
            OptionValue::Other => None,
        }
    } else {
        None
    }
}

/// The answer for what a program wrote or why it was stopped.
pub open spec fn answer_text(outcome: Result<Seq<char>, Fault>) -> Seq<char> {
    match outcome {
        Ok(output) => if output.len() == 0 {
            "出力はなかったよ！"@
        } else {
            output
        },
        Err(fault) => "エラーだよ！\n```"@ + fault_text(fault) + "```"@,
    }
}

/// The answer of the `bf` command to its options.
pub open spec fn run_text(options: Seq<OptionValue>) -> Seq<char> {
    match option_text(options, 0) {
        Some(program) => answer_text(
            interpretation(
                program.map_values(|c: char| command_of(c)),
                match option_text(options, 1) {
                    Some(input) => input,
                    None => Seq::empty(),
                },
            ),
        ),
        None => "エラーだよ！"@,
    }
}

/// Runs the `bf` command. The first option is the program and the second
/// its input; an input that is missing or no text is empty, and a program
/// that is missing or no text is an error. The answer is what the program
/// wrote, a note where it wrote nothing, or the fault in a code block.
pub fn run(option: &[OptionValue]) -> (answer: String)
    ensures
        answer@ == run_text(option@),
{
    if option.len() < 1 {
        return "エラーだよ！".to_owned();
    }
    let code = match &option[0] {
        OptionValue::Text(code) => parse_program(code.as_str()),
        OptionValue::Other => {
            return "エラーだよ！".to_owned();
        },
    };
    proof {
        reveal_strlit("");
    }
    let input: &str = if option.len() < 2 {
        ""
    } else {
        match &option[1] {
            OptionValue::Text(input) => input.as_str(),
            OptionValue::Other => "",
        }
    };
    assert(input@ =~= match option_text(option@, 1) {
        Some(input) => input,
        None => Seq::empty(),
    });
    match interpreter(code, input) {
        Ok(output) => {
            if output.as_str().is_empty() {
                "出力はなかったよ！".to_owned()
            } else {
                output
            }
        },
        Err(message) => {
            let mut answer = "エラーだよ！\n```".to_owned();
            answer.append(message.as_str());
            answer.append("```");
            answer
        },
    }
}

} // verus!
