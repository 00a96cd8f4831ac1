//! The interactive shell: reads lines from the console and runs the
//! command that each one names.

use vstd::prelude::*;
use vstd::slice::slice_subrange;
use vstd::string::StringSliceAdditionalSpecFns;

use crate::memory::frame::{frames_in_use, get_stats, FrameAllocator, FrameView};
use crate::memory::heap::{heap_used, BumpAllocator, BumpView};
use crate::uart::{
    decimal_text, edit_bytes, lemma_edit_keeps_text, line_length, LineEdit, Uart, LINE_FEED,
    SPACE, UART_BASE,
};

verus! {

/// Size of the line buffer.
pub const LINE_BYTES: usize = 256;

/// The prompt.
pub const PROMPT: &'static str = "woflOS> ";

/// The greeting of the first run.
pub const WELCOME: &'static str = "\n╔═══════════════════════════════════════╗\n║  Welcome to woflOS Interactive Shell  ║\n╚═══════════════════════════════════════╝\n\nType 'help' for available commands\n\n";

/// Command: list the commands.
pub const CMD_HELP: &'static str = "help";

/// Command: show the memory figures.
pub const CMD_MEMINFO: &'static str = "meminfo";

/// Command: clear the screen.
pub const CMD_CLEAR: &'static str = "clear";

/// Command: write the arguments back.
pub const CMD_ECHO: &'static str = "echo";

/// Command: describe the system.
pub const CMD_ABOUT: &'static str = "about";

/// What `help` writes.
pub const HELP_TEXT: &'static str = "\nAvailable commands:\n  help     - Show this help message\n  about    - About woflOS\n  meminfo  - Display memory information\n  echo     - Echo text back\n  clear    - Clear the screen\n\n";

/// What `about` writes.
pub const ABOUT_TEXT: &'static str = "\n╔═══════════════════════════════════════╗\n║            woflOS v0.3.0              ║\n╠═══════════════════════════════════════╣\n║ Architecture:  RISC-V 64-bit          ║\n║ Type:          Microkernel            ║\n║ Language:      Rust                   ║\n║ Design:        Stability-First        ║\n╠═══════════════════════════════════════╣\n║ Features:                             ║\n║  ✓ Memory Management                  ║\n║  ✓ Dynamic Allocation                 ║\n║  ✓ Interactive Shell                  ║\n║  ✓ Serial Console I/O                 ║\n╚═══════════════════════════════════════╝\n\nBuilt with 🐺 by wofl\n\n";

/// The escape sequence that clears the screen and homes the cursor.
pub const CLEAR_TEXT: &'static str = "\x1b[2J\x1b[H";

/// What `meminfo` writes up to the number of frames in use.
pub const MEMINFO_FRAMES_USED: &'static str =
    "\n═══ Memory Information ═══\n\nPhysical Memory:\n  Frames used:      ";

/// What `meminfo` writes between the frames in use and the frames in all.
pub const MEMINFO_FRAMES_TOTAL: &'static str = "\n  Frames total:     ";

/// What `meminfo` writes between the frames in all and the heap bytes in use.
pub const MEMINFO_HEAP_USED: &'static str =
    "\n  Frame size:       4096 bytes\n\nKernel Heap:\n  Heap used:        ";

/// What `meminfo` writes after the heap bytes in use.
pub const MEMINFO_HEAP_TOTAL: &'static str = " bytes\n  Heap total:       65536 bytes\n\n";

/// Complaint about a word that names no command; the word follows.
pub const UNKNOWN_COMMAND: &'static str = "Unknown command: ";

/// End of the complaint.
pub const UNKNOWN_HINT: &'static str = "\nType 'help' for available commands\n";

/// End of a line of output.
pub const END_OF_LINE: &'static str = "\n";

/// The figures that `meminfo` shows.
pub struct MemoryStats {
    pub frames_used: usize,
    pub frames_total: usize,
    pub heap_used: usize,
}

/// The figures for the given allocators.
pub open spec fn spec_memory_stats(frames: FrameView, heap: BumpView) -> MemoryStats {
    MemoryStats {
        frames_used: frames_in_use(frames.used, frames.total_frames as int) as usize,
        frames_total: frames.total_frames,
        heap_used: heap.used() as usize,
    }
}

/// The number of bytes before the first space of `text`, or its length where
/// it holds none.
pub open spec fn word_length(text: Seq<u8>) -> nat
    decreases text.len(),
{
    if text.len() == 0 || text[0] == SPACE {
        0
    } else {
        1 + word_length(text.subrange(1, text.len() as int))
    }
}

/// A word is no longer than the text it starts.
pub proof fn lemma_word_length_bound(text: Seq<u8>)
    ensures
        word_length(text) <= text.len(),
        text.len() > 0 && text[0] != SPACE ==> word_length(text) >= 1,
    decreases text.len(),
{
    if text.len() > 0 && text[0] != SPACE {
        lemma_word_length_bound(text.subrange(1, text.len() as int));
    }
}

/// The words of `text`: its longest stretches without a space, in order.
pub open spec fn words(text: Seq<u8>) -> Seq<Seq<u8>>
    decreases text.len(),
{
    if text.len() == 0 {
        Seq::empty()
    } else if text[0] == SPACE {
        words(text.subrange(1, text.len() as int))
    } else {
        proof {
            lemma_word_length_bound(text);
        }
        let n = word_length(text) as int;
        seq![text.subrange(0, n)] + words(text.subrange(n, text.len() as int))
    }
}

/// The words with one space between each two.
pub open spec fn join_words(list: Seq<Seq<u8>>) -> Seq<u8>
    decreases list.len(),
{
    if list.len() == 0 {
        Seq::empty()
    } else if list.len() == 1 {
        list[0]
    } else {
        list[0] + seq![SPACE] + join_words(list.subrange(1, list.len() as int))
    }
}

/// What `meminfo` writes.
pub open spec fn spec_meminfo_text(stats: MemoryStats) -> Seq<u8> {
    MEMINFO_FRAMES_USED.spec_bytes() + decimal_text(stats.frames_used as nat)
        + MEMINFO_FRAMES_TOTAL.spec_bytes() + decimal_text(stats.frames_total as nat)
        + MEMINFO_HEAP_USED.spec_bytes() + decimal_text(stats.heap_used as nat)
        + MEMINFO_HEAP_TOTAL.spec_bytes()
}

/// What the command line `line` writes to the console. The first word names
/// the command; a line without a word writes nothing, and a word that names
/// no command gets a complaint. A line holds printable characters only, so
/// the space is the only blank there is to part words.
pub open spec fn spec_command_output(line: Seq<u8>, stats: MemoryStats) -> Seq<u8> {
    let list = words(line);
    if list.len() == 0 {
        Seq::empty()
    } else if list[0] == CMD_HELP.spec_bytes() {
        HELP_TEXT.spec_bytes()
    } else if list[0] == CMD_MEMINFO.spec_bytes() {
        spec_meminfo_text(stats)
    } else if list[0] == CMD_CLEAR.spec_bytes() {
        CLEAR_TEXT.spec_bytes()
    } else if list[0] == CMD_ECHO.spec_bytes() {
        join_words(list.subrange(1, list.len() as int)) + END_OF_LINE.spec_bytes()
    } else if list[0] == CMD_ABOUT.spec_bytes() {
        ABOUT_TEXT.spec_bytes()
    } else {
        UNKNOWN_COMMAND.spec_bytes() + list[0] + UNKNOWN_HINT.spec_bytes()
    }
}

/// The shell's line buffer, cursor and console output after it has worked
/// through `input`: each complete line is edited, echoed, run as a command
/// and answered with a new prompt; what follows the last line terminator is
/// edited and echoed and stays in the buffer. `line.echo` is the output so
/// far.
pub open spec fn spec_session(line: LineEdit, input: Seq<u8>, stats: MemoryStats) -> LineEdit
    decreases input.len(),
{
    let n = line_length(input) as int;
    if n >= input.len() {
        edit_bytes(line, input)
    } else {
        let edited = edit_bytes(line, input.subrange(0, n));
        let output = edited.echo.push(LINE_FEED) + spec_command_output(
            edited.buffer.subrange(0, edited.cursor as int),
            stats,
        ) + PROMPT.spec_bytes();
        spec_session(
            LineEdit { buffer: edited.buffer, cursor: 0, echo: output },
            input.subrange(n + 1, input.len() as int),
            stats,
        )
    }
}

/// The first line of the input ends within the input.
pub proof fn lemma_line_length_bound(input: Seq<u8>)
    ensures
        line_length(input) <= input.len(),
    decreases input.len(),
{
    if input.len() > 0 {
        lemma_line_length_bound(input.subrange(1, input.len() as int));
    }
}

/// What was echoed before an edit stays in front of what the edit echoes,
/// and has no say in the buffer or the cursor.
pub proof fn lemma_edit_echo_prefix(line: LineEdit, input: Seq<u8>)
    ensures
        ({
            let fresh = edit_bytes(LineEdit { echo: Seq::empty(), ..line }, input);
            let edited = edit_bytes(line, input);
            &&& edited.buffer == fresh.buffer
            &&& edited.cursor == fresh.cursor
            &&& edited.echo == line.echo + fresh.echo
        }),
    decreases input.len(),
{
    let blank = LineEdit { echo: Seq::empty(), ..line };
    if input.len() == 0 {
        assert(line.echo + blank.echo == line.echo);
    } else {
        let rest = input.subrange(1, input.len() as int);
        let next = crate::uart::edit_byte(line, input[0]);
        let next_blank = crate::uart::edit_byte(blank, input[0]);
        lemma_edit_echo_prefix(next, rest);
        lemma_edit_echo_prefix(next_blank, rest);
        let tail = edit_bytes(LineEdit { echo: Seq::empty(), ..next }, rest);
        assert(LineEdit { echo: Seq::<u8>::empty(), ..next } == LineEdit {
            echo: Seq::<u8>::empty(),
            ..next_blank
        });
        assert(next.echo == line.echo + next_blank.echo);
        assert(line.echo + next_blank.echo + tail.echo == line.echo + (next_blank.echo + tail.echo));
    }
}

/// The command interpreter on the console.
pub struct Shell {
    uart: Uart,
    buffer: [u8; 256],
    started: bool,
}

/// True where `a` and `b` hold the same bytes.
fn bytes_equal(a: &[u8], b: &[u8]) -> (same: bool)
    ensures
        same == (a@ == b@),
{
    if a.len() != b.len() {
        return false;
    }
    let mut i: usize = 0;
    while i < a.len()
        invariant
            a@.len() == b@.len(),
            i <= a@.len(),
            forall|j: int| 0 <= j < i ==> a@[j] == b@[j],
        decreases a@.len() - i,
    {
        if a[i] != b[i] {
            return false;
        }
        i += 1;
    }
    assert(a@ =~= b@);
    true
}

/// Finds the first word of `input` at or after `from`: where it starts and
/// where it ends. Where there is none, both are the length of `input`.
fn next_word(input: &[u8], from: usize) -> (bounds: (usize, usize))
    requires
        from <= input@.len(),
    ensures
        from <= bounds.0 <= bounds.1 <= input@.len(),
        bounds.0 == input@.len() ==> words(input@.subrange(from as int, input@.len() as int))
            == Seq::<Seq<u8>>::empty(),
        bounds.0 < input@.len() ==> bounds.0 < bounds.1 && words(
            input@.subrange(from as int, input@.len() as int),
        ) == seq![input@.subrange(bounds.0 as int, bounds.1 as int)] + words(
            input@.subrange(bounds.1 as int, input@.len() as int),
        ),
{
    let ghost len = input@.len() as int;
    let mut start = from;
    while start < input.len() && input[start] == SPACE
        invariant
            len == input@.len(),
            from <= start <= len,
            words(input@.subrange(from as int, len)) == words(input@.subrange(start as int, len)),
        decreases len - start,
    {
        assert(input@.subrange(start as int, len).subrange(1, len - start) == input@.subrange(
            start + 1,
            len,
        ));
        start += 1;
    }
    if start == input.len() {
        return (start, start);
    }
    let ghost text = input@.subrange(start as int, len);
    let mut end = start + 1;
    assert(text.subrange(1, text.len() as int) == input@.subrange(end as int, len));
    while end < input.len() && input[end] != SPACE
        invariant
            len == input@.len(),
            start < end <= len,
            text == input@.subrange(start as int, len),
            word_length(text) == (end - start) + word_length(input@.subrange(end as int, len)),
        decreases len - end,
    {
        assert(input@.subrange(end as int, len).subrange(1, len - end) == input@.subrange(
            end + 1,
            len,
        ));
        end += 1;
    }
    proof {
        assert(word_length(input@.subrange(end as int, len)) == 0);
        assert(text.subrange(0, end - start) == input@.subrange(start as int, end as int));
        assert(text.subrange(end - start, text.len() as int) == input@.subrange(end as int, len));
    }
    (start, end)
}

/// Writes the list of commands.
fn cmd_help(uart: &mut Uart)
    ensures
        final(uart).output() == old(uart).output() + HELP_TEXT.spec_bytes(),
        final(uart).pending() == old(uart).pending(),
        final(uart).line_cursor() == old(uart).line_cursor(),
        final(uart).base() == old(uart).base(),
{
    uart.puts(HELP_TEXT);
}

/// Writes the memory figures.
fn cmd_meminfo(uart: &mut Uart, stats: &MemoryStats)
    ensures
        final(uart).output() == old(uart).output() + spec_meminfo_text(*stats),
        final(uart).pending() == old(uart).pending(),
        final(uart).line_cursor() == old(uart).line_cursor(),
        final(uart).base() == old(uart).base(),
{
    uart.puts(MEMINFO_FRAMES_USED);
    uart.print_number(stats.frames_used);
    uart.puts(MEMINFO_FRAMES_TOTAL);
    uart.print_number(stats.frames_total);
    uart.puts(MEMINFO_HEAP_USED);
    uart.print_number(stats.heap_used);
    uart.puts(MEMINFO_HEAP_TOTAL);
}

/// Clears the terminal's screen.
fn cmd_clear(uart: &mut Uart)
    ensures
        final(uart).output() == old(uart).output() + CLEAR_TEXT.spec_bytes(),
        final(uart).pending() == old(uart).pending(),
        final(uart).line_cursor() == old(uart).line_cursor(),
        final(uart).base() == old(uart).base(),
{
    uart.puts(CLEAR_TEXT);
}

/// Writes the words of `input` from `from` on, one space between each two,
/// and a line feed.
fn cmd_echo(uart: &mut Uart, input: &[u8], from: usize)
    requires
        from <= input@.len(),
    ensures
        final(uart).output() == old(uart).output() + (join_words(
            words(input@.subrange(from as int, input@.len() as int)),
        ) + END_OF_LINE.spec_bytes()),
        final(uart).pending() == old(uart).pending(),
        final(uart).line_cursor() == old(uart).line_cursor(),
        final(uart).base() == old(uart).base(),
{
    let ghost len = input@.len() as int;
    let ghost all = words(input@.subrange(from as int, len));
    let ghost mut written: Seq<u8> = Seq::empty();
    let ghost mut rest = all;
    let (mut start, mut end) = next_word(input, from);
    assert(old(uart).output() + written == old(uart).output());
    while start < input.len()
        invariant
            len == input@.len(),
            start <= end <= len,
            start < len ==> start < end && rest == seq![input@.subrange(start as int, end as int)]
                + words(input@.subrange(end as int, len)),
            start == len ==> rest == Seq::<Seq<u8>>::empty(),
            written + join_words(rest) == join_words(all),
            uart.output() == old(uart).output() + written,
            uart.pending() == old(uart).pending(),
            uart.line_cursor() == old(uart).line_cursor(),
            uart.base() == old(uart).base(),
        decreases len - start,
    {
        let ghost word = input@.subrange(start as int, end as int);
        let ghost tail = words(input@.subrange(end as int, len));
        uart.write(slice_subrange(input, start, end));
        let (next_start, next_end) = next_word(input, end);
        proof {
            assert(rest[0] == word);
            assert(rest.subrange(1, rest.len() as int) == tail);
        }
        if next_start < input.len() {
            uart.putc(SPACE);
            proof {
                assert(join_words(rest) == word + seq![SPACE] + join_words(tail));
                assert(written + (word + seq![SPACE] + join_words(tail)) == written + word
                    + seq![SPACE] + join_words(tail));
                assert(old(uart).output() + written + word + seq![SPACE] == old(uart).output() + (
                written + word + seq![SPACE]));
                assert((old(uart).output() + written + word).push(SPACE) == old(uart).output()
                    + written + word + seq![SPACE]);
                written = written + word + seq![SPACE];
            }
        } else {
            proof {
                assert(tail == Seq::<Seq<u8>>::empty());
                assert(join_words(rest) == word);
                assert(join_words(tail) == Seq::<u8>::empty());
                assert(written + word + join_words(tail) == written + word);
                assert(old(uart).output() + written + word == old(uart).output() + (written
                    + word));
                written = written + word;
            }
        }
        proof {
            rest = tail;
        }
        start = next_start;
        end = next_end;
    }
    uart.puts(END_OF_LINE);
    proof {
        assert(join_words(rest) == Seq::<u8>::empty());
        assert(written + join_words(rest) == written);
        assert(old(uart).output() + written + END_OF_LINE.spec_bytes() == old(uart).output() + (
        written + END_OF_LINE.spec_bytes()));
    }
}

/// Writes the description of the system.
fn cmd_about(uart: &mut Uart)
    ensures
        final(uart).output() == old(uart).output() + ABOUT_TEXT.spec_bytes(),
        final(uart).pending() == old(uart).pending(),
        final(uart).line_cursor() == old(uart).line_cursor(),
        final(uart).base() == old(uart).base(),
{
    uart.puts(ABOUT_TEXT);
}

/// Runs the command line `input`.
fn execute_command(uart: &mut Uart, input: &[u8], stats: &MemoryStats)
    ensures
        final(uart).output() == old(uart).output() + spec_command_output(input@, *stats),
        final(uart).pending() == old(uart).pending(),
        final(uart).line_cursor() == old(uart).line_cursor(),
        final(uart).base() == old(uart).base(),
{
    assert(input@.subrange(0, input@.len() as int) == input@);
    let (start, end) = next_word(input, 0);
    if start == input.len() {
        assert(old(uart).output() + Seq::<u8>::empty() == old(uart).output());
        return ;
    }
    let ghost list = words(input@);
    let cmd = slice_subrange(input, start, end);
    assert(list[0] == cmd@);
    assert(list.subrange(1, list.len() as int) == words(
        input@.subrange(end as int, input@.len() as int),
    ));
    if bytes_equal(cmd, CMD_HELP.as_bytes()) {
        cmd_help(uart);
    } else if bytes_equal(cmd, CMD_MEMINFO.as_bytes()) {
        cmd_meminfo(uart, stats);
    } else if bytes_equal(cmd, CMD_CLEAR.as_bytes()) {
        cmd_clear(uart);
    } else if bytes_equal(cmd, CMD_ECHO.as_bytes()) {
        cmd_echo(uart, input, end);
    } else if bytes_equal(cmd, CMD_ABOUT.as_bytes()) {
        cmd_about(uart);
    } else {
        uart.puts(UNKNOWN_COMMAND);
        uart.write(cmd);
        uart.puts(UNKNOWN_HINT);
    }
}

impl Shell {
    /// True where the open line lies within the line buffer. A new shell is
    /// well formed, and every method keeps it so.
    pub closed spec fn wf(&self) -> bool {
        self.uart.line_cursor() <= 256
    }

    /// The shell's console.
    pub closed spec fn console(&self) -> Uart {
        self.uart
    }

    /// The line buffer.
    pub closed spec fn line(&self) -> Seq<u8> {
        self.buffer@
    }

    /// True once the welcome has been written.
    pub closed spec fn has_started(&self) -> bool {
        self.started
    }

    /// A shell on the console at [`UART_BASE`] that has yet to greet.
    pub fn new() -> (shell: Self)
        ensures
            shell.console().base() == UART_BASE,
            shell.console().output() == Seq::<u8>::empty(),
            shell.console().pending() == Seq::<u8>::empty(),
            shell.console().line_cursor() == 0,
            shell.line() == Seq::new(256, |i: int| 0u8),
            !shell.has_started(),
            shell.wf(),
    {
        let shell = Shell { uart: Uart::new(UART_BASE), buffer: [0;256], started: false };
        assert(shell.buffer@ =~= Seq::new(256, |i: int| 0u8));
        shell
    }

    /// Queues one byte that the console has received.
    pub fn receive(&mut self, byte: u8)
        ensures
            final(self).console().pending() == old(self).console().pending().push(byte),
            final(self).console().output() == old(self).console().output(),
            final(self).console().line_cursor() == old(self).console().line_cursor(),
            final(self).console().base() == old(self).console().base(),
            final(self).line() == old(self).line(),
            final(self).has_started() == old(self).has_started(),
            final(self).wf() == old(self).wf(),
    {
        self.uart.receive(byte);
    }

    /// Hands over everything the shell has written so far.
    pub fn take_output(&mut self) -> (bytes: Vec<u8>)
        ensures
            bytes@ == old(self).console().output(),
            final(self).console().output() == Seq::<u8>::empty(),
            final(self).console().pending() == old(self).console().pending(),
            final(self).console().line_cursor() == old(self).console().line_cursor(),
            final(self).console().base() == old(self).console().base(),
            final(self).line() == old(self).line(),
            final(self).has_started() == old(self).has_started(),
            final(self).wf() == old(self).wf(),
    {
        self.uart.take_output()
    }

    /// Writes the prompt.
    fn print_prompt(&mut self)
        ensures
            final(self).console().output() == old(self).console().output() + PROMPT.spec_bytes(),
            final(self).console().pending() == old(self).console().pending(),
            final(self).console().line_cursor() == old(self).console().line_cursor(),
            final(self).console().base() == old(self).console().base(),
            final(self).line() == old(self).line(),
            final(self).has_started() == old(self).has_started(),
            final(self).wf() == old(self).wf(),
    {
        self.uart.puts(PROMPT);
    }

    /// Runs the shell on the input received so far.
    ///
    /// The first run greets and prompts. Then every complete line is read,
    /// run as a command and answered with a new prompt. The run ends when
    /// the input is used up; a line that is not yet complete stays open, and
    /// the next run carries on with it.
    pub fn run(&mut self, frames: &FrameAllocator, heap: &BumpAllocator)
        requires
            old(self).wf(),
        ensures
            final(self).wf(),
            ({
                let greeting = if old(self).has_started() {
                    Seq::<u8>::empty()
                } else {
                    WELCOME.spec_bytes() + PROMPT.spec_bytes()
                };
                let session = spec_session(
                    LineEdit {
                        buffer: old(self).line(),
                        cursor: old(self).console().line_cursor(),
                        echo: greeting,
                    },
                    old(self).console().pending(),
                    spec_memory_stats(frames@, heap@),
                );
                &&& final(self).console().output() == old(self).console().output() + session.echo
                &&& final(self).line() == session.buffer
                &&& final(self).console().line_cursor() == session.cursor
                &&& final(self).console().pending() == Seq::<u8>::empty()
                &&& final(self).console().base() == old(self).console().base()
                &&& final(self).has_started()
            }),
    {
        let (frames_used, frames_total) = get_stats(frames);
        let stats = MemoryStats { frames_used, frames_total, heap_used: heap_used(heap) };
        let ghost greeting = if self.started {
            Seq::<u8>::empty()
        } else {
            WELCOME.spec_bytes() + PROMPT.spec_bytes()
        };
        let ghost goal = spec_session(
            LineEdit { buffer: self.buffer@, cursor: self.uart.line_cursor(), echo: greeting },
            self.uart.pending(),
            stats,
        );
        if !self.started {
            self.uart.puts(WELCOME);
            self.started = true;
            self.print_prompt();
            assert(old(self).console().output() + WELCOME.spec_bytes() + PROMPT.spec_bytes() == old(
                self,
            ).console().output() + greeting);
        } else {
            assert(old(self).console().output() + greeting == old(self).console().output());
        }
        let ghost mut written = greeting;
        loop
            invariant
                stats == spec_memory_stats(frames@, heap@),
                goal == spec_session(
                    LineEdit {
                        buffer: old(self).buffer@,
                        cursor: old(self).uart.line_cursor(),
                        echo: if old(self).started {
                            Seq::<u8>::empty()
                        } else {
                            WELCOME.spec_bytes() + PROMPT.spec_bytes()
                        },
                    },
                    old(self).uart.pending(),
                    stats,
                ),
                self.started,
                self.uart.line_cursor() <= 256,
                self.uart.base() == old(self).uart.base(),
                self.uart.output() == old(self).uart.output() + written,
                goal == spec_session(
                    LineEdit {
                        buffer: self.buffer@,
                        cursor: self.uart.line_cursor(),
                        echo: written,
                    },
                    self.uart.pending(),
                    stats,
                ),
            decreases self.uart.pending().len(),
        {
            let ghost input = self.uart.pending();
            let ghost line = LineEdit {
                buffer: self.buffer@,
                cursor: self.uart.line_cursor(),
                echo: written,
            };
            let ghost n = line_length(input) as int;
            proof {
                lemma_line_length_bound(input);
                lemma_edit_echo_prefix(line, input.subrange(0, n));
                lemma_edit_keeps_text(
                    LineEdit {
                        buffer: self.buffer@,
                        cursor: self.uart.line_cursor(),
                        echo: Seq::empty(),
                    },
                    input.subrange(0, n),
                );
            }
            let ghost edited = edit_bytes(line, input.subrange(0, n));
            match self.uart.getline(&mut self.buffer) {
                None => {
                    proof {
                        assert(input.subrange(0, n) == input);
                        assert(old(self).uart.output() + written + edit_bytes(
                            LineEdit { echo: Seq::empty(), ..line },
                            input,
                        ).echo == old(self).uart.output() + edited.echo);
                    }
                    return ;
                },
                Some(len) => {
                    let ghost fresh = edit_bytes(
                        LineEdit { echo: Seq::empty(), ..line },
                        input.subrange(0, n),
                    );
                    let ghost text = self.buffer@.subrange(0, len as int);
                    if len > 0 {
                        execute_command(
                            &mut self.uart,
                            slice_subrange(self.buffer.as_slice(), 0, len),
                            &stats,
                        );
                    } else {
                        proof {
                            assert(text == Seq::<u8>::empty());
                            assert(words(text) == Seq::<Seq<u8>>::empty());
                            assert(self.uart.output() + spec_command_output(text, stats)
                                == self.uart.output());
                        }
                    }
                    self.print_prompt();
                    proof {
                        let output = edited.echo.push(LINE_FEED) + spec_command_output(
                            text,
                            stats,
                        ) + PROMPT.spec_bytes();
                        assert(old(self).uart.output() + written + fresh.echo.push(LINE_FEED)
                            + spec_command_output(text, stats) + PROMPT.spec_bytes() == old(
                            self,
                        ).uart.output() + output);
                        written = output;
                    }
                },
            }
        }
    }
}

} // verus!
