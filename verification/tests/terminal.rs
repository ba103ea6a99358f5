use fp::terminal::{
    end_prompt_bytes, partially_matching_needle_len, start_prompt_bytes, ExtractorStep,
    PtyOutput, TerminalExtractor, END_PROMPT_REPEATS, START_PROMPT_REPEATS,
};

const START_PROMPT: &str = "\u{200b}\u{200b}\u{200b}";
const END_PROMPT: &str = "\u{200c}\u{200c}";

/// Runs the extractor until it needs input, collecting the outputs.
fn drain(extractor: &mut TerminalExtractor) -> Vec<PtyOutput> {
    let mut out = Vec::new();
    loop {
        match extractor.step() {
            ExtractorStep::NeedRead => return out,
            ExtractorStep::Output(o) => out.push(o),
        }
    }
}

fn feed(extractor: &mut TerminalExtractor, data: &[u8]) {
    while !extractor.needs_read() {
        extractor.step();
    }
    extractor.feed(data);
}

#[test]
fn test_partial_needle() {
    let start = start_prompt_bytes();
    assert_eq!(partially_matching_needle_len("data".as_bytes(), &start), 0);
    for i in 0..=start.len() {
        assert_eq!(partially_matching_needle_len(&start[0..i], &start), i);
    }
}

#[test]
fn markers_are_the_zero_width_characters() {
    assert_eq!(start_prompt_bytes(), START_PROMPT.as_bytes());
    assert_eq!(end_prompt_bytes(), END_PROMPT.as_bytes());
    assert_eq!(START_PROMPT_REPEATS + END_PROMPT_REPEATS, "[REC]".len());
}

#[test]
fn terminal_extractor_test_basic_extraction() {
    let mut extractor = TerminalExtractor::new();
    feed(
        &mut extractor,
        "some initial output here\u{200b}\u{200b}\u{200b}My fancy prompt>\u{200c}\u{200c}".as_bytes(),
    );
    let out = drain(&mut extractor);
    assert_eq!(
        out,
        vec![
            PtyOutput::Data("some initial output here".as_bytes().to_vec()),
            PtyOutput::PromptStart,
            PtyOutput::Data("My fancy prompt>".as_bytes().to_vec()),
            PtyOutput::PromptEnd,
        ]
    );
}

#[test]
fn terminal_extractor_test_partial_extraction() {
    let mut extractor = TerminalExtractor::new();
    feed(&mut extractor, "some initial output here\u{200b}\u{200b}".as_bytes());
    assert_eq!(
        drain(&mut extractor),
        vec![PtyOutput::Data("some initial output here".as_bytes().to_vec())]
    );
    feed(&mut extractor, "\u{200b}My fancy prompt>\u{200c}\u{200c}".as_bytes());
    assert_eq!(
        drain(&mut extractor),
        vec![
            PtyOutput::PromptStart,
            PtyOutput::Data("My fancy prompt>".as_bytes().to_vec()),
            PtyOutput::PromptEnd,
        ]
    );
}

#[test]
fn outputs_reproduce_the_input() {
    // the law `law_step_accounts_for_every_byte` on concrete chunks
    let input = "a\u{200b}\u{200b}\u{200b}$ \u{200c}\u{200c}ls\n\u{200c}x\u{200b}\u{200b}\u{200b}";
    let bytes = input.as_bytes();
    let mut extractor = TerminalExtractor::new();
    let mut rendered = Vec::new();
    for chunk in bytes.chunks(4) {
        feed(&mut extractor, chunk);
        for o in drain(&mut extractor) {
            match o {
                PtyOutput::Data(d) => rendered.extend_from_slice(&d),
                PtyOutput::PromptStart => rendered.extend_from_slice(&start_prompt_bytes()),
                PtyOutput::PromptEnd => rendered.extend_from_slice(&end_prompt_bytes()),
            }
        }
    }
    assert_eq!(rendered, bytes);
}

#[test]
fn partial_marker_is_held_back() {
    let mut extractor = TerminalExtractor::new();
    feed(&mut extractor, &[b'a', b'b', 0xe2, 0x80]);
    assert_eq!(drain(&mut extractor), vec![PtyOutput::Data(b"ab".to_vec())]);
    feed(&mut extractor, &[0x8c, 0xe2, 0x80, 0x8c, b'z']);
    // fewer bytes than the shorter marker are left: they wait for more input
    assert_eq!(drain(&mut extractor), vec![PtyOutput::PromptEnd]);
    feed(&mut extractor, b"yyyyyy");
    assert_eq!(
        drain(&mut extractor),
        vec![PtyOutput::Data(b"zyyyyyy".to_vec())]
    );
}

#[test]
fn write_capacity_shrinks_as_bytes_are_fed() {
    let mut extractor = TerminalExtractor::new();
    assert_eq!(extractor.write_capacity(), 16384);
    feed(&mut extractor, b"abc");
    assert_eq!(extractor.write_capacity(), 16381);
}
