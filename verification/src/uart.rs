//! Console model for a 16550-compatible UART.
//!
//! A [`Uart`] records the bytes the kernel writes and queues the bytes the
//! platform has received. The platform layer drains the former into the
//! transmit register and feeds the latter from the receive register.

use vstd::prelude::*;
use vstd::string::StringSliceAdditionalSpecFns;

verus! {

/// Address of the console's registers on the machine the kernel runs on.
pub const UART_BASE: usize = 0x1000_0000;

/// Line feed, echoed when a line is complete.
pub const LINE_FEED: u8 = 0x0A;

/// Carriage return, accepted as a line terminator.
pub const CARRIAGE_RETURN: u8 = 0x0D;

/// Backspace, sent to move the terminal's cursor one column left.
pub const BACKSPACE: u8 = 0x08;

/// Delete, treated on input like backspace.
pub const DELETE: u8 = 0x7F;

/// Space, the first printable character.
pub const SPACE: u8 = 0x20;

/// True for the two bytes that end a line of input.
pub open spec fn is_line_end(byte: u8) -> bool {
    byte == CARRIAGE_RETURN || byte == LINE_FEED
}

/// True for the two bytes that erase the last character of the line.
pub open spec fn is_erase(byte: u8) -> bool {
    byte == DELETE || byte == BACKSPACE
}

/// True for the bytes that a line can hold: printable ASCII.
pub open spec fn is_printable(byte: u8) -> bool {
    SPACE <= byte < DELETE
}

/// The line editor's state: the caller's buffer, the number of characters of
/// the current line that it holds, and what has been echoed to the terminal.
pub struct LineEdit {
    pub buffer: Seq<u8>,
    pub cursor: nat,
    pub echo: Seq<u8>,
}

/// What one input byte other than a line terminator does to the line.
///
/// An erase byte drops the last character and rubs it out on the terminal;
/// at the start of the line it does nothing. A printable byte is stored and
/// echoed while the buffer has room. Every other byte is ignored.
pub open spec fn edit_byte(line: LineEdit, byte: u8) -> LineEdit {
    if is_erase(byte) {
        if line.cursor > 0 {
            LineEdit {
                buffer: line.buffer,
                cursor: (line.cursor - 1) as nat,
                echo: line.echo + seq![BACKSPACE, SPACE, BACKSPACE],
            }
        } else {
            line
        }
    } else if is_printable(byte) && line.cursor < line.buffer.len() {
        LineEdit {
            buffer: line.buffer.update(line.cursor as int, byte),
            cursor: line.cursor + 1,
            echo: line.echo.push(byte),
        }
    } else {
        line
    }
}

/// The line after every byte of `input` has been applied in order.
pub open spec fn edit_bytes(line: LineEdit, input: Seq<u8>) -> LineEdit
    decreases input.len(),
{
    if input.len() == 0 {
        line
    } else {
        edit_bytes(edit_byte(line, input[0]), input.subrange(1, input.len() as int))
    }
}

/// The number of bytes of `input` before its first line terminator, or the
/// length of `input` where it holds none.
pub open spec fn line_length(input: Seq<u8>) -> nat
    decreases input.len(),
{
    if input.len() == 0 || is_line_end(input[0]) {
        0
    } else {
        1 + line_length(input.subrange(1, input.len() as int))
    }
}

/// Applying `input` and then one more byte is applying `input.push(byte)`.
pub proof fn lemma_edit_bytes_push(line: LineEdit, input: Seq<u8>, byte: u8)
    ensures
        edit_bytes(line, input.push(byte)) == edit_byte(edit_bytes(line, input), byte),
    decreases input.len(),
{
    let longer = input.push(byte);
    if input.len() == 0 {
        assert(longer.subrange(1, 1) =~= Seq::<u8>::empty());
        assert(edit_bytes(edit_byte(line, byte), longer.subrange(1, 1)) == edit_byte(line, byte));
    } else {
        let rest = input.subrange(1, input.len() as int);
        assert(longer.subrange(1, longer.len() as int) =~= rest.push(byte));
        lemma_edit_bytes_push(edit_byte(line, input[0]), rest, byte);
    }
}

/// A prefix free of line terminators, followed by a terminator or the end of
/// the input, is exactly the first line.
pub proof fn lemma_line_length_is(input: Seq<u8>, n: int)
    requires
        0 <= n <= input.len(),
        forall|i: int| 0 <= i < n ==> !is_line_end(input[i]),
        n == input.len() || is_line_end(input[n]),
    ensures
        line_length(input) == n,
    decreases input.len(),
{
    if n > 0 {
        let rest = input.subrange(1, input.len() as int);
        assert forall|i: int| 0 <= i < n - 1 implies !is_line_end(rest[i]) by {
            assert(rest[i] == input[i + 1]);
        }
        lemma_line_length_is(rest, n - 1);
    }
}

/// True where the line lies within its buffer and holds printable
/// characters only.
pub open spec fn line_is_text(line: LineEdit) -> bool {
    &&& line.cursor <= line.buffer.len()
    &&& forall|i: int| 0 <= i < line.cursor ==> is_printable(#[trigger] line.buffer[i])
}

/// Editing keeps the buffer's length, keeps a cursor within the buffer
/// within the buffer, and keeps a line of printable characters a line of
/// printable characters.
pub proof fn lemma_edit_keeps_text(line: LineEdit, input: Seq<u8>)
    ensures
        edit_bytes(line, input).buffer.len() == line.buffer.len(),
        line.cursor <= line.buffer.len() ==> edit_bytes(line, input).cursor <= line.buffer.len(),
        line_is_text(line) ==> line_is_text(edit_bytes(line, input)),
    decreases input.len(),
{
    if input.len() > 0 {
        lemma_edit_keeps_text(edit_byte(line, input[0]), input.subrange(1, input.len() as int));
    }
}

/// The character for a hexadecimal digit, in lower case.
pub open spec fn hex_digit(nibble: int) -> u8
    recommends
        0 <= nibble < 16,
{
    if nibble < 10 {
        (0x30 + nibble) as u8
    } else {
        (0x61 + (nibble - 10)) as u8
    }
}

/// The digit of `n` that stands `place` hexadecimal places from the right.
pub open spec fn hex_nibble(n: u64, place: u64) -> u64 {
    (n >> (place * 4) as u64) & 0xF
}

/// `n` as sixteen hexadecimal digits, most significant first.
pub open spec fn hex_digits(n: u64) -> Seq<u8> {
    Seq::new(16, |i: int| hex_digit(hex_nibble(n, (15 - i) as u64) as int))
}

/// `n` as `0x` followed by sixteen hexadecimal digits.
pub open spec fn hex_text(n: u64) -> Seq<u8> {
    seq![0x30u8, 0x78u8] + hex_digits(n)
}

/// The digits of `n` in the given base, most significant first; no digit at
/// all for zero. Digits above nine are the lower-case letters from `a`.
pub open spec fn radix_digits(n: nat, base: nat) -> Seq<u8>
    decreases n,
{
    if n == 0 || base < 2 {
        Seq::empty()
    } else {
        proof {
            assert(n / base < n) by (nonlinear_arith)
                requires
                    n > 0,
                    base >= 2,
            ;
        }
        radix_digits(n / base, base).push(hex_digit((n % base) as int))
    }
}

/// `n` in decimal without leading zeros; zero is the single digit `0`.
pub open spec fn decimal_text(n: nat) -> Seq<u8> {
    if n == 0 {
        seq![0x30u8]
    } else {
        radix_digits(n, 10)
    }
}

/// `n` as `0x` followed by its hexadecimal digits without leading zeros;
/// zero is `0x0`.
pub open spec fn short_hex_text(n: nat) -> Seq<u8> {
    if n == 0 {
        seq![0x30u8, 0x78u8, 0x30u8]
    } else {
        seq![0x30u8, 0x78u8] + radix_digits(n, 16)
    }
}

/// A serial console: the bytes written to it and the bytes waiting to be read.
pub struct Uart {
    base_address: usize,
    transmitted: Vec<u8>,
    received: Vec<u8>,
    cursor: usize,
}

impl Uart {
    /// The address of the device's registers.
    pub closed spec fn base(&self) -> usize {
        self.base_address
    }

    /// Every byte written so far and not yet taken, oldest first.
    pub closed spec fn output(&self) -> Seq<u8> {
        self.transmitted@
    }

    /// The bytes received and not yet read, oldest first.
    pub closed spec fn pending(&self) -> Seq<u8> {
        self.received@
    }

    /// The number of characters of the unfinished input line.
    pub closed spec fn line_cursor(&self) -> nat {
        self.cursor as nat
    }

    /// A console at `base_address` with nothing written and nothing received.
    pub fn new(base_address: usize) -> (uart: Self)
        ensures
            uart.base() == base_address,
            uart.output() == Seq::<u8>::empty(),
            uart.pending() == Seq::<u8>::empty(),
            uart.line_cursor() == 0,
    {
        let uart = Uart {
            base_address,
            transmitted: Vec::new(),
            received: Vec::new(),
            cursor: 0,
        };
        uart.init();
        uart
    }

    /// The device needs no set-up; kept as the place where it would go.
    fn init(&self) {
    }

    /// The address of the device's registers.
    pub fn base_address(&self) -> (address: usize)
        ensures
            address == self.base(),
    {
        self.base_address
    }

    /// Writes one byte.
    pub fn putc(&mut self, c: u8)
        ensures
            final(self).output() == old(self).output().push(c),
            final(self).pending() == old(self).pending(),
            final(self).line_cursor() == old(self).line_cursor(),
            final(self).base() == old(self).base(),
    {
        self.transmitted.push(c);
    }

    /// Writes the UTF-8 bytes of `s`.
    pub fn puts(&mut self, s: &str)
        ensures
            final(self).output() == old(self).output() + s.spec_bytes(),
            final(self).pending() == old(self).pending(),
            final(self).line_cursor() == old(self).line_cursor(),
            final(self).base() == old(self).base(),
    {
        self.write(s.as_bytes());
    }

    /// Writes every byte of `bytes`.
    pub fn write(&mut self, bytes: &[u8])
        ensures
            final(self).output() == old(self).output() + bytes@,
            final(self).pending() == old(self).pending(),
            final(self).line_cursor() == old(self).line_cursor(),
            final(self).base() == old(self).base(),
    {
        let mut i: usize = 0;
        while i < bytes.len()
            invariant
                i <= bytes@.len(),
                self.output() == old(self).output() + bytes@.subrange(0, i as int),
                self.pending() == old(self).pending(),
                self.line_cursor() == old(self).line_cursor(),
                self.base() == old(self).base(),
            decreases bytes@.len() - i,
        {
            self.putc(bytes[i]);
            assert(bytes@.subrange(0, i + 1) == bytes@.subrange(0, i as int).push(bytes@[i as int]));
            i += 1;
        }
        assert(bytes@.subrange(0, i as int) == bytes@);
    }

    /// Queues one byte that the device has received.
    pub fn receive(&mut self, byte: u8)
        ensures
            final(self).pending() == old(self).pending().push(byte),
            final(self).output() == old(self).output(),
            final(self).line_cursor() == old(self).line_cursor(),
            final(self).base() == old(self).base(),
    {
        self.received.push(byte);
    }

    /// Hands over everything written so far and starts the record afresh.
    pub fn take_output(&mut self) -> (bytes: Vec<u8>)
        ensures
            bytes@ == old(self).output(),
            final(self).output() == Seq::<u8>::empty(),
            final(self).pending() == old(self).pending(),
            final(self).line_cursor() == old(self).line_cursor(),
            final(self).base() == old(self).base(),
    {
        let mut bytes: Vec<u8> = Vec::new();
        std::mem::swap(&mut bytes, &mut self.transmitted);
        bytes
    }

    /// Reads the oldest received byte, if there is one.
    pub fn getc(&mut self) -> (byte: Option<u8>)
        ensures
            old(self).pending().len() == 0 ==> byte.is_none() && final(self).pending() == old(
                self,
            ).pending(),
            old(self).pending().len() > 0 ==> byte == Some(old(self).pending()[0])
                && final(self).pending() == old(self).pending().subrange(
                1,
                old(self).pending().len() as int,
            ),
            final(self).output() == old(self).output(),
            final(self).line_cursor() == old(self).line_cursor(),
            final(self).base() == old(self).base(),
    {
        if self.received.len() > 0 {
            let byte = self.received.remove(0);
            assert(self.received@ == old(self).received@.subrange(
                1,
                old(self).received@.len() as int,
            ));
            Some(byte)
        } else {
            None
        }
    }
    /// Reads one line of input into `buffer`, echoing as the terminal expects.
    ///
    /// The received bytes are taken in order up to and including the first
    /// line terminator. Printable characters are stored and echoed while the
    /// buffer has room, an erase byte rubs out the last character, and
    /// anything else is dropped. At the terminator a line feed is echoed and
    /// the line's length is returned. Where the input runs out first, the
    /// result is `None` and the line stays open: the next call carries on
    /// where this one stopped.
    pub fn getline(&mut self, buffer: &mut [u8]) -> (length: Option<usize>)
        ensures
            ({
                let input = old(self).pending();
                let n = line_length(input);
                let line = edit_bytes(
                    LineEdit {
                        buffer: old(buffer)@,
                        cursor: old(self).line_cursor(),
                        echo: Seq::empty(),
                    },
                    input.subrange(0, n as int),
                );
                &&& final(buffer)@ == line.buffer
                &&& final(self).base() == old(self).base()
                &&& n < input.len() ==> {
                    &&& length == Some(line.cursor as usize)
                    &&& final(self).output() == old(self).output() + line.echo.push(LINE_FEED)
                    &&& final(self).pending() == input.subrange(n as int + 1, input.len() as int)
                    &&& final(self).line_cursor() == 0
                }
                &&& n >= input.len() ==> {
                    &&& length.is_none()
                    &&& final(self).output() == old(self).output() + line.echo
                    &&& final(self).pending() == Seq::<u8>::empty()
                    &&& final(self).line_cursor() == line.cursor
                }
            }),
    {
        let ghost input = self.pending();
        let ghost start = LineEdit {
            buffer: buffer@,
            cursor: self.line_cursor(),
            echo: Seq::empty(),
        };
        let ghost mut taken: int = 0;
        assert(input.subrange(0, 0) == Seq::<u8>::empty());
        assert(input.subrange(0, input.len() as int) == input);
        loop
            invariant
                input == old(self).pending(),
                start == (LineEdit {
                    buffer: old(buffer)@,
                    cursor: old(self).line_cursor(),
                    echo: Seq::empty(),
                }),
                0 <= taken <= input.len(),
                forall|i: int| 0 <= i < taken ==> !is_line_end(input[i]),
                self.pending() == input.subrange(taken, input.len() as int),
                self.base() == old(self).base(),
                buffer@ == edit_bytes(start, input.subrange(0, taken)).buffer,
                self.line_cursor() == edit_bytes(start, input.subrange(0, taken)).cursor,
                self.output() == old(self).output() + edit_bytes(
                    start,
                    input.subrange(0, taken),
                ).echo,
                buffer@.len() == start.buffer.len(),
            decreases input.len() - taken,
        {
            let ghost before = edit_bytes(start, input.subrange(0, taken));
            match self.getc() {
                None => {
                    proof {
                        lemma_line_length_is(input, taken);
                    }
                    return None;
                },
                Some(byte) => {
                    assert(byte == input[taken]);
                    if byte == CARRIAGE_RETURN || byte == LINE_FEED {
                        self.putc(LINE_FEED);
                        let length = self.cursor;
                        self.cursor = 0;
                        proof {
                            lemma_line_length_is(input, taken);
                            assert(self.pending() == input.subrange(
                                taken + 1,
                                input.len() as int,
                            ));
                            assert(old(self).output() + before.echo.push(LINE_FEED) == (old(
                                self,
                            ).output() + before.echo).push(LINE_FEED));
                        }
                        return Some(length);
                    } else if byte == DELETE || byte == BACKSPACE {
                        if self.cursor > 0 {
                            self.cursor -= 1;
                            self.putc(BACKSPACE);
                            self.putc(SPACE);
                            self.putc(BACKSPACE);
                            assert(self.output() == old(self).output() + (before.echo
                                + seq![BACKSPACE, SPACE, BACKSPACE]));
                        }
                    } else if byte >= SPACE && byte < DELETE && self.cursor < buffer.len() {
                        buffer[self.cursor] = byte;
                        self.cursor += 1;
                        self.putc(byte);
                        assert(self.output() == old(self).output() + before.echo.push(byte));
                    }
                    proof {
                        lemma_edit_bytes_push(start, input.subrange(0, taken), byte);
                        assert(input.subrange(0, taken + 1) == input.subrange(0, taken).push(
                            byte,
                        ));
                        assert(self.pending() == input.subrange(
                            taken + 1,
                            input.len() as int,
                        ));
                        taken = taken + 1;
                    }
                },
            }
        }
    }

    /// Writes `n` as `0x` and sixteen lower-case hexadecimal digits.
    pub fn print_hex(&mut self, n: u64)
        ensures
            final(self).output() == old(self).output() + hex_text(n),
            final(self).pending() == old(self).pending(),
            final(self).line_cursor() == old(self).line_cursor(),
            final(self).base() == old(self).base(),
    {
        self.putc(0x30);
        self.putc(0x78);
        let mut left: u64 = 16;
        while left > 0
            invariant
                left <= 16,
                self.output() == old(self).output() + seq![0x30u8, 0x78u8] + hex_digits(
                    n,
                ).subrange(0, 16 - left),
                self.pending() == old(self).pending(),
                self.line_cursor() == old(self).line_cursor(),
                self.base() == old(self).base(),
            decreases left,
        {
            left -= 1;
            let place: u64 = left * 4;
            let nibble: u64 = (n >> place) & 0xF;
            assert(nibble < 16) by (bit_vector)
                requires
                    nibble == (n >> place) & 0xF,
            ;
            let c: u8 = if nibble < 10 {
                0x30 + nibble as u8
            } else {
                0x61 + (nibble as u8 - 10)
            };
            assert(c == hex_digits(n)[15 - left]);
            self.putc(c);
            assert(hex_digits(n).subrange(0, 16 - left) == hex_digits(n).subrange(
                0,
                15 - left,
            ).push(c));
        }
        assert(hex_digits(n).subrange(0, 16) == hex_digits(n));
        assert(old(self).output() + seq![0x30u8, 0x78u8] + hex_digits(n) == old(self).output()
            + hex_text(n));
    }

    /// Writes the digits of a positive `n` in the given base.
    fn print_digits(&mut self, n: usize, base: usize)
        requires
            n > 0,
            2 <= base <= 16,
        ensures
            final(self).output() == old(self).output() + radix_digits(n as nat, base as nat),
            final(self).pending() == old(self).pending(),
            final(self).line_cursor() == old(self).line_cursor(),
            final(self).base() == old(self).base(),
    {
        // Collect the digits least significant first, then write them backwards.
        let mut digits: Vec<u8> = Vec::new();
        let mut rest: usize = n;
        while rest > 0
            invariant
                2 <= base <= 16,
                radix_digits(n as nat, base as nat) == radix_digits(rest as nat, base as nat)
                    + digits@.reverse(),
            decreases rest,
        {
            let digit: usize = rest % base;
            let c: u8 = if digit < 10 {
                0x30 + digit as u8
            } else {
                0x61 + (digit as u8 - 10)
            };
            assert(c == hex_digit(digit as int));
            let ghost shorter = radix_digits((rest / base) as nat, base as nat);
            assert(radix_digits(rest as nat, base as nat) == shorter.push(c));
            assert(shorter.push(c) + digits@.reverse() == shorter + digits@.push(c).reverse());
            digits.push(c);
            rest = rest / base;
        }
        assert(radix_digits(n as nat, base as nat) == digits@.reverse());
        let mut i: usize = digits.len();
        while i > 0
            invariant
                i <= digits@.len(),
                self.output() == old(self).output() + digits@.reverse().subrange(
                    0,
                    digits@.len() - i,
                ),
                self.pending() == old(self).pending(),
                self.line_cursor() == old(self).line_cursor(),
                self.base() == old(self).base(),
            decreases i,
        {
            i -= 1;
            self.putc(digits[i]);
            assert(digits@.reverse().subrange(0, digits@.len() - i) == digits@.reverse().subrange(
                0,
                digits@.len() - i - 1,
            ).push(digits@[i as int]));
        }
        assert(digits@.reverse().subrange(0, digits@.len() as int) == digits@.reverse());
    }

    /// Writes `n` in decimal.
    pub fn print_number(&mut self, n: usize)
        ensures
            final(self).output() == old(self).output() + decimal_text(n as nat),
            final(self).pending() == old(self).pending(),
            final(self).line_cursor() == old(self).line_cursor(),
            final(self).base() == old(self).base(),
    {
        if n == 0 {
            self.putc(0x30);
            assert(old(self).output().push(0x30u8) == old(self).output() + seq![0x30u8]);
            return ;
        }
        self.print_digits(n, 10);
    }

    /// Writes `n` as `0x` and its hexadecimal digits without leading zeros.
    pub fn print_hex_short(&mut self, n: usize)
        ensures
            final(self).output() == old(self).output() + short_hex_text(n as nat),
            final(self).pending() == old(self).pending(),
            final(self).line_cursor() == old(self).line_cursor(),
            final(self).base() == old(self).base(),
    {
        self.putc(0x30);
        self.putc(0x78);
        if n == 0 {
            self.putc(0x30);
            assert(old(self).output().push(0x30u8).push(0x78u8).push(0x30u8) == old(
                self,
            ).output() + seq![0x30u8, 0x78u8, 0x30u8]);
            return ;
        }
        self.print_digits(n, 16);
        assert(old(self).output().push(0x30u8).push(0x78u8) + radix_digits(n as nat, 16)
            == old(self).output() + (seq![0x30u8, 0x78u8] + radix_digits(n as nat, 16)));
    }
}

} // verus!
