use heaptrace::{parse, parse_text, HeapAction, ParseError, Stack};

const CREATE: &str = "HeapCreate, TimeStamp, Process Name ( PID), ThreadID, HeapHandle, Flags, ReserveSize, CommitSize, AllocatedSize";
const DESTROY: &str = "HeapDestroy, TimeStamp, Process Name ( PID), ThreadID, HeapHandle";
const ALLOC: &str = "HeapAlloc, TimeStamp, Process Name ( PID), ThreadID, HeapHandle, Address, Size, Source";
const FREE: &str = "HeapFree, TimeStamp, Process Name ( PID), ThreadID, HeapHandle, Address, __Reserved, Source";
const REALLOC: &str = "HeapRealloc, TimeStamp, Process Name ( PID), ThreadID, HeapHandle, NewAddress, OldAddress, NewSize, OldSize, Source";
const STACK: &str = "Stack, TimeStamp, ThreadID, No., Address, Image!Function";

fn log_of(lines: &[&str]) -> String {
    let mut text = String::new();
    for line in lines {
        text.push_str(line);
        text.push('\n');
    }
    text
}

fn with_header(body: &[&str]) -> String {
    let mut lines = vec![CREATE, DESTROY, ALLOC, FREE, REALLOC, STACK, "EndHeader"];
    lines.extend_from_slice(body);
    log_of(&lines)
}

fn stack_of(symbols: &[&str]) -> Stack {
    Stack(symbols.iter().map(|symbol| symbol.to_string()).collect())
}

#[test]
fn one_alloc_with_its_stack() {
    let text = with_header(&[
        "Stack, t0, 100, 1, 0x1000, moduleA!funcA",
        "Stack, t0, 100, 2, 0x1004, moduleA!funcB",
        "HeapAlloc, t0, proc (1), 100, 0x10, 0x2000, 0x40, source",
    ]);
    let pairs = parse_text(&text).unwrap();
    assert_eq!(
        pairs,
        vec![(
            HeapAction::Alloc { heap: 0x10, address: 0x2000, size: 0x40 },
            stack_of(&["moduleA!funcA", "moduleA!funcB"]),
        )]
    );
}

#[test]
fn event_without_stack_is_a_count_mismatch() {
    let text = with_header(&["HeapAlloc, t0, proc (1), 100, 0x10, 0x2000, 0x40, source"]);
    assert_eq!(parse_text(&text), Err(ParseError::CountMismatch));
}

#[test]
fn stack_without_event_is_a_count_mismatch() {
    let text = with_header(&["Stack, t0, 100, 1, 0x1000, a!b"]);
    assert_eq!(parse_text(&text), Err(ParseError::CountMismatch));
}

#[test]
fn two_events_one_stack_is_a_count_mismatch() {
    let text = with_header(&[
        "HeapCreate, t0, proc (1), 100, 0x10, 0x2, 0x0, 0x0, 0x0",
        "Stack, t0, 100, 1, 0x1000, a!b",
        "HeapDestroy, t1, proc (1), 100, 0x10",
    ]);
    assert_eq!(parse_text(&text), Err(ParseError::CountMismatch));
}

#[test]
fn header_ending_early_is_refused() {
    let text = log_of(&[CREATE, DESTROY, ALLOC, FREE, REALLOC, "EndHeader", STACK]);
    assert_eq!(parse_text(&text), Err(ParseError::SchemaMismatch));
}

#[test]
fn header_ending_at_once_is_refused() {
    assert_eq!(parse_text("EndHeader\n"), Err(ParseError::SchemaMismatch));
}

#[test]
fn each_missing_kind_is_refused() {
    let all = [CREATE, DESTROY, ALLOC, FREE, REALLOC, STACK];
    for missing in 0..all.len() {
        let mut lines: Vec<&str> = Vec::new();
        for (i, line) in all.iter().enumerate() {
            if i != missing {
                lines.push(line);
            }
        }
        lines.push("EndHeader");
        assert_eq!(parse_text(&log_of(&lines)), Err(ParseError::SchemaMismatch));
    }
}

#[test]
fn header_is_accepted_in_any_order() {
    let text = log_of(&[STACK, REALLOC, FREE, ALLOC, DESTROY, CREATE, "EndHeader"]);
    assert_eq!(parse_text(&text), Ok(vec![]));
    let text = log_of(&[
        FREE,
        STACK,
        CREATE,
        REALLOC,
        DESTROY,
        ALLOC,
        "EndHeader",
        "Stack, t0, 100, 1, 0x1000, a!b",
        "HeapDestroy, t0, proc (1), 100, 0x77",
    ]);
    assert_eq!(
        parse_text(&text),
        Ok(vec![(HeapAction::Destroy { heap: 0x77 }, stack_of(&["a!b"]))])
    );
}

#[test]
fn other_header_rows_are_passed_over() {
    let text = log_of(&[
        "BeginHeader",
        CREATE,
        "FirstReliableEventTimeStamp, TimeStamp",
        DESTROY,
        "",
        ALLOC,
        "P-Start, TimeStamp, Process Name ( PID), ParentPID",
        FREE,
        REALLOC,
        STACK,
        STACK,
        "EndHeader",
    ]);
    assert_eq!(parse_text(&text), Ok(vec![]));
}

#[test]
fn changed_columns_declare_nothing() {
    let drifted = "HeapAlloc, TimeStamp, Process Name ( PID), ThreadID, HeapHandle, Address, Size";
    let text = log_of(&[CREATE, DESTROY, drifted, FREE, REALLOC, STACK, "EndHeader"]);
    assert_eq!(parse_text(&text), Err(ParseError::SchemaMismatch));
    let renamed = "Stack, TimeStamp, ThreadID, No., Address, Image!function";
    let text = log_of(&[CREATE, DESTROY, ALLOC, FREE, REALLOC, renamed, "EndHeader"]);
    assert_eq!(parse_text(&text), Err(ParseError::SchemaMismatch));
    let longer = "HeapDestroy, TimeStamp, Process Name ( PID), ThreadID, HeapHandle, Source";
    let text = log_of(&[CREATE, longer, ALLOC, FREE, REALLOC, STACK, "EndHeader"]);
    assert_eq!(parse_text(&text), Err(ParseError::SchemaMismatch));
}

#[test]
fn log_without_end_of_header_says_nothing() {
    assert_eq!(parse_text(""), Ok(vec![]));
    assert_eq!(parse_text("\n\n"), Ok(vec![]));
    let text = log_of(&[
        CREATE,
        "HeapAlloc, t0, proc (1), 100, 0x10, 0x2000, 0x40, source",
        "HeapAlloc, t0, proc (1), 100, junk",
    ]);
    assert_eq!(parse_text(&text), Ok(vec![]));
}

#[test]
fn rows_before_the_body_are_not_events() {
    let text = log_of(&[
        "HeapAlloc, t0, proc (1), 100, 0x10, 0x2000, 0x40, source",
        "Stack, t0, 100, 1, zzz, a!b",
        CREATE,
        DESTROY,
        ALLOC,
        FREE,
        REALLOC,
        STACK,
        "EndHeader",
    ]);
    assert_eq!(parse_text(&text), Ok(vec![]));
}

#[test]
fn every_kind_of_event_is_read() {
    let text = with_header(&[
        "Stack, 1, 7, 1, 0xa, m!create",
        "HeapCreate, 1, p (1), 7, 0x1f0000, 0x2, 0x0, 0x0, 0x0",
        "Stack, 2, 7, 1, 0xb, m!alloc",
        "HeapAlloc, 2, p (1), 7, 0x1f0000, 0x1f0840, 0x28, Main",
        "Stack, 3, 7, 1, 0xc, m!realloc",
        "HeapRealloc, 3, p (1), 7, 0x1f0000, 0x1f0900, 0x1f0840, 0x50, 0x28, Main",
        "Stack, 4, 7, 1, 0xd, m!free",
        "HeapFree, 4, p (1), 7, 0x1f0000, 0x1f0900, 0, Main",
        "Stack, 5, 7, 1, 0xe, m!destroy",
        "HeapDestroy, 5, p (1), 7, 0x1f0000",
    ]);
    assert_eq!(
        parse_text(&text),
        Ok(vec![
            (HeapAction::Create { heap: 0x1f0000 }, stack_of(&["m!create"])),
            (
                HeapAction::Alloc { heap: 0x1f0000, address: 0x1f0840, size: 0x28 },
                stack_of(&["m!alloc"])
            ),
            (
                HeapAction::Realloc {
                    heap: 0x1f0000,
                    new_address: 0x1f0900,
                    old_address: 0x1f0840,
                    new_size: 0x50,
                    old_size: 0x28
                },
                stack_of(&["m!realloc"])
            ),
            (HeapAction::Free { heap: 0x1f0000, address: 0x1f0900 }, stack_of(&["m!free"])),
            (HeapAction::Destroy { heap: 0x1f0000 }, stack_of(&["m!destroy"])),
        ])
    );
}

#[test]
fn pairs_go_by_place_not_by_nearness() {
    let text = with_header(&[
        "HeapFree, 1, p (1), 7, 0x1, 0x100, 0, Main",
        "HeapFree, 2, p (1), 7, 0x2, 0x200, 0, Main",
        "HeapFree, 3, p (1), 7, 0x3, 0x300, 0, Main",
        "Stack, 1, 7, 1, 0xa, first!a",
        "Stack, 1, 7, 2, 0xb, first!b",
        "Stack, 2, 7, 1, 0xc, second!a",
        "Stack, 3, 7, 1, 0xd, third!a",
        "Stack, 3, 7, 2, 0xe, third!b",
        "Stack, 3, 7, 3, 0xf, third!c",
    ]);
    assert_eq!(
        parse_text(&text),
        Ok(vec![
            (HeapAction::Free { heap: 1, address: 0x100 }, stack_of(&["first!a", "first!b"])),
            (HeapAction::Free { heap: 2, address: 0x200 }, stack_of(&["second!a"])),
            (
                HeapAction::Free { heap: 3, address: 0x300 },
                stack_of(&["third!a", "third!b", "third!c"])
            ),
        ])
    );
}

#[test]
fn frames_before_the_first_depth_one_open_a_stack() {
    let text = with_header(&[
        "Stack, 1, 7, 3, 0xa, deep!c",
        "Stack, 1, 7, 4, 0xb, deep!d",
        "Stack, 2, 7, 1, 0xc, top!a",
        "HeapDestroy, 1, p (1), 7, 0x1",
        "HeapDestroy, 2, p (1), 7, 0x2",
    ]);
    assert_eq!(
        parse_text(&text),
        Ok(vec![
            (HeapAction::Destroy { heap: 1 }, stack_of(&["deep!c", "deep!d"])),
            (HeapAction::Destroy { heap: 2 }, stack_of(&["top!a"])),
        ])
    );
}

#[test]
fn only_depth_one_begins_a_stack() {
    let text = with_header(&[
        "Stack, 1, 7, 1, 0xa, s!a",
        "Stack, 1, 7, 5, 0xb, s!b",
        "Stack, 1, 7, 2, 0xc, s!c",
        "Stack, 1, 7, 0, 0xd, s!d",
        "Stack, 1, 7, 2, 0xe, s!e",
        "Stack, 1, 7, 01, 0xf, t!a",
        "HeapDestroy, 1, p (1), 7, 0x1",
        "HeapDestroy, 2, p (1), 7, 0x2",
    ]);
    assert_eq!(
        parse_text(&text),
        Ok(vec![
            (HeapAction::Destroy { heap: 1 }, stack_of(&["s!a", "s!b", "s!c", "s!d", "s!e"])),
            (HeapAction::Destroy { heap: 2 }, stack_of(&["t!a"])),
        ])
    );
}

#[test]
fn events_between_frames_do_not_break_a_stack() {
    let text = with_header(&[
        "Stack, 1, 7, 1, 0xa, s!a",
        "HeapDestroy, 1, p (1), 7, 0x1",
        "Stack, 1, 7, 2, 0xb, s!b",
    ]);
    assert_eq!(
        parse_text(&text),
        Ok(vec![(HeapAction::Destroy { heap: 1 }, stack_of(&["s!a", "s!b"]))])
    );
}

#[test]
fn unknown_rows_and_blank_lines_are_passed_over() {
    let text = with_header(&[
        "",
        "   ",
        "HeapSnapShot, 1, p (1), 7, zzz",
        "heapalloc, 1, p (1), 7, zzz",
        "EndHeader",
        "Stack, 1, 7, 1, 0xa, s!a",
        ",,,,",
        "HeapAllocX, 1, p (1), 7, zzz",
        "HeapDestroy, 1, p (1), 7, 0x1",
        "Stack",
    ]);
    assert_eq!(parse_text(&text), Err(ParseError::MalformedField));
    let text = with_header(&[
        "",
        "   ",
        "HeapSnapShot, 1, p (1), 7, zzz",
        "heapalloc, 1, p (1), 7, zzz",
        "EndHeader",
        "Stack, 1, 7, 1, 0xa, s!a",
        ",,,,",
        "HeapAllocX, 1, p (1), 7, zzz",
        "HeapDestroy, 1, p (1), 7, 0x1",
    ]);
    assert_eq!(
        parse_text(&text),
        Ok(vec![(HeapAction::Destroy { heap: 1 }, stack_of(&["s!a"]))])
    );
}

#[test]
fn fields_are_trimmed() {
    let text = with_header(&[
        "\t Stack ,t0,100,  1\t, 0x1000 ,   module A ! func A  ",
        "   HeapAlloc,t0,proc (1),100,\u{a0}0x10\u{3000},0x2000,0x40,source",
    ]);
    assert_eq!(
        parse_text(&text),
        Ok(vec![(
            HeapAction::Alloc { heap: 0x10, address: 0x2000, size: 0x40 },
            stack_of(&["module A ! func A"])
        )])
    );
}

#[test]
fn carriage_returns_end_lines_too() {
    let text = with_header(&[
        "Stack, t0, 100, 1, 0x1000, a!b\r",
        "HeapDestroy, t0, proc (1), 100, 0x10\r",
    ])
    .replace('\n', "\r\n");
    assert_eq!(
        parse_text(&text),
        Ok(vec![(HeapAction::Destroy { heap: 0x10 }, stack_of(&["a!b"]))])
    );
}

#[test]
fn last_line_needs_no_line_feed() {
    let mut text = with_header(&["Stack, t0, 100, 1, 0x1000, a!b"]);
    text.push_str("HeapDestroy, t0, proc (1), 100, 0x10");
    assert_eq!(
        parse_text(&text),
        Ok(vec![(HeapAction::Destroy { heap: 0x10 }, stack_of(&["a!b"]))])
    );
}

#[test]
fn symbols_are_kept_as_they_are() {
    let text = with_header(&[
        "Stack, t0, 100, 1, 0x1000, ntdll.dll!RtlAllocateHeap+0x1a3",
        "Stack, t0, 100, 2, 0x1000, ",
        "Stack, t0, 100, 3, 0x1000, caf\u{e9}!\u{1f600}, trailing, fields",
        "HeapDestroy, t0, proc (1), 100, 0x10",
    ]);
    assert_eq!(
        parse_text(&text),
        Ok(vec![(
            HeapAction::Destroy { heap: 0x10 },
            stack_of(&["ntdll.dll!RtlAllocateHeap+0x1a3", "", "caf\u{e9}!\u{1f600}"])
        )])
    );
}

#[test]
fn bad_hexadecimal_field_is_refused() {
    for row in [
        "HeapCreate, 1, p (1), 7, 1f0000",
        "HeapCreate, 1, p (1), 7, 0x",
        "HeapCreate, 1, p (1), 7, 0xZZ",
        "HeapCreate, 1, p (1), 7, 0X10",
        "HeapCreate, 1, p (1), 7, 0x1 0",
        "HeapCreate, 1, p (1), 7, 0x10000000000000000",
        "HeapCreate, 1, p (1), 7,",
        "HeapDestroy, 1, p (1), 7, 16",
        "HeapAlloc, 1, p (1), 7, 0x1, 0x2, 40, Main",
        "HeapAlloc, 1, p (1), 7, 0x1, x2, 0x40, Main",
        "HeapFree, 1, p (1), 7, 0x1, -0x2, 0, Main",
        "HeapRealloc, 1, p (1), 7, 0x1, 0x2, 0x3, 0x4, five, Main",
        "HeapRealloc, 1, p (1), 7, 0x1, 0x2, 0x3, 0x, 0x5, Main",
    ] {
        assert_eq!(parse_text(&with_header(&[row])), Err(ParseError::MalformedField), "{}", row);
    }
}

#[test]
fn address_of_a_frame_is_not_read() {
    let text = with_header(&["HeapFree,t,p,9,0x10,0x20,0x0,s", "Stack,t,9,1,zz,A!f"]);
    assert_eq!(
        parse_text(&text),
        Ok(vec![(HeapAction::Free { heap: 0x10, address: 0x20 }, stack_of(&["A!f"]))])
    );
    let text = with_header(&[
        "Stack, 1, 7, 1, 1000, a!b",
        "Stack, 1, 7, 2, , c!d",
        "Stack, 1, 7, 3, 0x, e!f",
        "Stack, 1, 7, 1, 0x7ff6a1b2c3d4, g!h",
        "HeapDestroy, 1, p (1), 7, 0x1",
        "HeapDestroy, 2, p (1), 7, 0x2",
    ]);
    assert_eq!(
        parse_text(&text),
        Ok(vec![
            (HeapAction::Destroy { heap: 1 }, stack_of(&["a!b", "c!d", "e!f"])),
            (HeapAction::Destroy { heap: 2 }, stack_of(&["g!h"])),
        ])
    );
    let text = with_header(&["Stack, 1, 7, 1, 1000, a!b"]);
    assert_eq!(parse_text(&text), Err(ParseError::CountMismatch));
}

#[test]
fn depth_may_be_written_with_a_plus() {
    let text = with_header(&[
        "Stack, 1, 7, +1, 0xa, s!a",
        "Stack, 1, 7, +2, 0xb, s!b",
        "Stack, 1, 7, +01, 0xc, t!a",
        "HeapDestroy, 1, p (1), 7, 0x1",
        "HeapDestroy, 2, p (1), 7, 0x2",
    ]);
    assert_eq!(
        parse_text(&text),
        Ok(vec![
            (HeapAction::Destroy { heap: 1 }, stack_of(&["s!a", "s!b"])),
            (HeapAction::Destroy { heap: 2 }, stack_of(&["t!a"])),
        ])
    );
}

#[test]
fn bad_depth_is_refused() {
    for row in [
        "Stack, 1, 7, one, 0x1000, a!b",
        "Stack, 1, 7, , 0x1000, a!b",
        "Stack, 1, 7, 0x1, 0x1000, a!b",
        "Stack, 1, 7, 1.0, 0x1000, a!b",
        "Stack, 1, 7, -1, 0x1000, a!b",
        "Stack, 1, 7, +, 0x1000, a!b",
        "Stack, 1, 7, ++1, 0x1000, a!b",
        "Stack, 1, 7, + 1, 0x1000, a!b",
        "Stack, 1, 7, 1+, 0x1000, a!b",
        "Stack, 1, 7, 18446744073709551616, 0x1000, a!b",
        "Stack, 1, 7, +18446744073709551616, 0x1000, a!b",
    ] {
        assert_eq!(parse_text(&with_header(&[row])), Err(ParseError::MalformedField), "{}", row);
    }
}

#[test]
fn short_rows_are_refused() {
    for row in [
        "HeapCreate",
        "HeapCreate, 1, p (1), 7",
        "HeapDestroy, 1, p (1)",
        "HeapAlloc, 1, p (1), 7, 0x1, 0x2",
        "HeapFree, 1, p (1), 7, 0x1",
        "HeapRealloc, 1, p (1), 7, 0x1, 0x2, 0x3, 0x4",
        "Stack, 1, 7, 1, 0x1000",
        "Stack, 1, 7, 1",
        "Stack",
    ] {
        assert_eq!(parse_text(&with_header(&[row])), Err(ParseError::MalformedField), "{}", row);
    }
}

#[test]
fn rows_may_be_longer_than_declared() {
    let text = with_header(&[
        "Stack, 1, 7, 1, 0xa, s!a, more",
        "HeapDestroy, 1, p (1), 7, 0x1, more, and more",
    ]);
    assert_eq!(
        parse_text(&text),
        Ok(vec![(HeapAction::Destroy { heap: 1 }, stack_of(&["s!a"]))])
    );
}

#[test]
fn first_error_decides() {
    let text = with_header(&[
        "HeapDestroy, 1, p (1), 7, 0x1",
        "HeapDestroy, 1, p (1), 7, bad",
    ]);
    assert_eq!(parse_text(&text), Err(ParseError::MalformedField));
    let text = log_of(&["EndHeader", "HeapDestroy, 1, p (1), 7, bad"]);
    assert_eq!(parse_text(&text), Err(ParseError::SchemaMismatch));
}

#[test]
fn numbers_reach_the_limit_of_64_bits() {
    let text = with_header(&[
        "Stack, 1, 7, 18446744073709551615, 0xffffffffffffffff, s!a",
        "HeapFree, 1, p (1), 7, 0xFFFFFFFFFFFFFFFF, 0x0000000000000000000000001, 0, Main",
    ]);
    assert_eq!(
        parse_text(&text),
        Ok(vec![(HeapAction::Free { heap: u64::MAX, address: 1 }, stack_of(&["s!a"]))])
    );
}

#[test]
fn bytes_are_read_as_text() {
    let text = with_header(&[
        "Stack, t0, 100, 1, 0x1000, moduleA!funcA",
        "HeapAlloc, t0, proc (1), 100, 0x10, 0x2000, 0x40, source",
    ]);
    assert_eq!(
        parse(text.as_bytes()),
        Ok(vec![(
            HeapAction::Alloc { heap: 0x10, address: 0x2000, size: 0x40 },
            stack_of(&["moduleA!funcA"])
        )])
    );
    assert_eq!(parse(b""), Ok(vec![]));
    assert_eq!(parse(b"EndHeader"), Err(ParseError::SchemaMismatch));
}

#[test]
fn bytes_that_are_no_text_are_replaced() {
    let mut raw = with_header(&[]).into_bytes();
    raw.extend_from_slice(b"Stack, t0, \xff\xfe, 1, 0x1000, mod\xffule!f\xc3\n");
    raw.extend_from_slice(b"Stack, t0, 100, 2, 0x1004, caf\xc3\xa9!g\n");
    raw.extend_from_slice(b"HeapDestroy, \x80, proc (1), 100, 0x10\n");
    assert_eq!(
        parse(&raw),
        Ok(vec![(
            HeapAction::Destroy { heap: 0x10 },
            stack_of(&["mod\u{fffd}ule!f\u{fffd}", "caf\u{e9}!g"])
        )])
    );
    let mut raw = with_header(&[]).into_bytes();
    raw.extend_from_slice(b"HeapDestroy, t0, proc (1), 100, 0x1\xff0\n");
    assert_eq!(parse(&raw), Err(ParseError::MalformedField));
}

#[test]
fn stacks_can_be_cloned() {
    let stack = stack_of(&["a!b", "c!d"]);
    let copy = stack.clone();
    assert_eq!(copy, stack);
    assert_eq!(copy.0, vec!["a!b".to_string(), "c!d".to_string()]);
}
