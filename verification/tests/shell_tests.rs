use woflos::memory::frame::FrameAllocator;
use woflos::memory::heap::BumpAllocator;
use woflos::shell::Shell;

const WELCOME: &str = "\n╔═══════════════════════════════════════╗\n║  Welcome to woflOS Interactive Shell  ║\n╚═══════════════════════════════════════╝\n\nType 'help' for available commands\n\n";
const PROMPT: &str = "woflOS> ";

fn memory() -> (FrameAllocator, BumpAllocator) {
    let (mut frames, mut heap) = woflos::memory::init(0x8020_0000, 0x8020_0000 + 10 * 4096, 0x9000_0000);
    frames.allocate();
    frames.allocate();
    heap.allocate(100, 4);
    (frames, heap)
}

fn session(input: &[u8]) -> String {
    let (frames, heap) = memory();
    let mut shell = Shell::new();
    for b in input {
        shell.receive(*b);
    }
    shell.run(&frames, &heap);
    let output = String::from_utf8(shell.take_output()).expect("text");
    let start = format!("{}{}", WELCOME, PROMPT);
    assert!(output.starts_with(&start));
    output[start.len()..].to_string()
}

#[test]
fn shell_greets_and_prompts() {
    let (frames, heap) = memory();
    let mut shell = Shell::new();
    shell.run(&frames, &heap);
    assert_eq!(String::from_utf8(shell.take_output()).expect("text"), format!("{}{}", WELCOME, PROMPT));
    // A second run with nothing to read writes nothing.
    shell.run(&frames, &heap);
    assert!(shell.take_output().is_empty());
}

#[test]
fn shell_help() {
    assert_eq!(
        session(b"help\r"),
        "help\n\nAvailable commands:\n  help     - Show this help message\n  about    - About woflOS\n  meminfo  - Display memory information\n  echo     - Echo text back\n  clear    - Clear the screen\n\nwoflOS> "
    );
}

#[test]
fn shell_empty_line_only_prompts() {
    assert_eq!(session(b"\r"), "\nwoflOS> ");
    assert_eq!(session(b"   \r"), "   \nwoflOS> ");
}

#[test]
fn shell_unknown_command() {
    assert_eq!(
        session(b"frobnicate now\r"),
        "frobnicate now\nUnknown command: frobnicate\nType 'help' for available commands\nwoflOS> "
    );
}

#[test]
fn shell_commands_are_case_sensitive_and_whole_words() {
    assert_eq!(
        session(b"Help\r"),
        "Help\nUnknown command: Help\nType 'help' for available commands\nwoflOS> "
    );
    assert_eq!(
        session(b"helpme\r"),
        "helpme\nUnknown command: helpme\nType 'help' for available commands\nwoflOS> "
    );
}

#[test]
fn shell_echo_joins_words_with_one_space() {
    assert_eq!(session(b"echo hello   world \r"), "echo hello   world \nhello world\nwoflOS> ");
    assert_eq!(session(b"  echo a\r"), "  echo a\na\nwoflOS> ");
    assert_eq!(session(b"echo\r"), "echo\n\nwoflOS> ");
}

#[test]
fn shell_clear() {
    assert_eq!(session(b"clear\n"), "clear\n\x1b[2J\x1b[HwoflOS> ");
}

#[test]
fn shell_meminfo() {
    assert_eq!(
        session(b"meminfo\r"),
        "meminfo\n\n═══ Memory Information ═══\n\nPhysical Memory:\n  Frames used:      2\n  Frames total:     10\n  Frame size:       4096 bytes\n\nKernel Heap:\n  Heap used:        100 bytes\n  Heap total:       65536 bytes\n\nwoflOS> "
    );
}

#[test]
fn shell_about() {
    let output = session(b"about\r");
    assert!(output.starts_with("about\n\n╔═══════════════════════════════════════╗\n║            woflOS v0.3.0              ║\n"));
    assert!(output.contains("║ Architecture:  RISC-V 64-bit          ║\n"));
    assert!(output.ends_with("╚═══════════════════════════════════════╝\n\nBuilt with 🐺 by wofl\n\nwoflOS> "));
}

#[test]
fn shell_runs_several_lines() {
    assert_eq!(
        session(b"echo one\rclear\recho two\r"),
        "echo one\none\nwoflOS> clear\n\x1b[2J\x1b[HwoflOS> echo two\ntwo\nwoflOS> "
    );
}

#[test]
fn shell_line_editing() {
    assert_eq!(
        session(b"ecko\x7f\x7fho hi\r"),
        "ecko\x08 \x08\x08 \x08ho hi\nhi\nwoflOS> "
    );
}

#[test]
fn shell_keeps_an_open_line_between_runs() {
    let (frames, heap) = memory();
    let mut shell = Shell::new();
    for b in b"echo par" {
        shell.receive(*b);
    }
    shell.run(&frames, &heap);
    let first = String::from_utf8(shell.take_output()).expect("text");
    assert_eq!(first, format!("{}{}echo par", WELCOME, PROMPT));
    for b in b"tial\r" {
        shell.receive(*b);
    }
    shell.run(&frames, &heap);
    assert_eq!(String::from_utf8(shell.take_output()).expect("text"), "tial\npartial\nwoflOS> ");
}

#[test]
fn shell_line_longer_than_the_buffer_is_cut() {
    let mut input = b"echo ".to_vec();
    input.extend(std::iter::repeat(b'x').take(300));
    input.push(b'\r');
    let output = session(&input);
    let kept = "x".repeat(251);
    assert_eq!(output, format!("echo {}\n{}\nwoflOS> ", kept, kept));
}
