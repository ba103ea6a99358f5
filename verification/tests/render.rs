use fp::ansi::Collector;
use fp::render::{DecCode, MyTerminalState, TermAction, TextRender};
use termwiz::escape::csi::{DecPrivateMode, DecPrivateModeCode, Mode};
use termwiz::escape::{Action, CSI};

#[test]
fn text_render_basic_test() {
    let mut render = TextRender::new();
    render.on_data("hello world\n".as_bytes());
    assert_eq!(render.take_written(), "hello world\n");
}

#[test]
fn strips_alternate_mode() {
    let mut render = TextRender::new();
    render.on_data(
        format!(
            "hello{}you shouldn't see this\n{} world\n",
            Action::CSI(CSI::Mode(Mode::SetDecPrivateMode(DecPrivateMode::Code(
                DecPrivateModeCode::ClearAndEnableAlternateScreen
            )))),
            Action::CSI(CSI::Mode(Mode::ResetDecPrivateMode(DecPrivateMode::Code(
                DecPrivateModeCode::ClearAndEnableAlternateScreen
            ))))
        )
        .as_bytes(),
    );
    assert_eq!(render.take_written(), "hello world\n");
}

#[test]
fn backspace_removes_the_last_character() {
    let mut render = TextRender::new();
    render.on_data(b"lss\x08 -l\n");
    assert_eq!(render.take_written(), "ls -l\n");
    assert!(render.written_is_empty());
}

#[test]
fn partial_line_waits_for_flush() {
    let mut render = TextRender::new();
    render.on_data(b"abc");
    assert!(render.written_is_empty());
    render.flush();
    assert_eq!(render.take_written(), "abc");
}

#[test]
fn other_private_modes_do_not_switch_screens() {
    let mut render = TextRender::new();
    render.handle_action(TermAction::SetDecMode(DecCode::Other));
    render.handle_action(TermAction::Print('x'));
    render.handle_action(TermAction::LineFeed);
    assert_eq!(render.take_written(), "x\n");
}

#[test]
fn terminal_state_flush_keeps_the_line_break() {
    let mut t = MyTerminalState::new();
    for c in "ab".chars() {
        t.proccess(TermAction::Print(c));
    }
    t.proccess(TermAction::LineFeed);
    t.proccess(TermAction::Print('c'));
    t.proccess(TermAction::Backspace);
    t.proccess(TermAction::Print('d'));
    t.flush();
    assert_eq!(t.take_buffer(), "ab\nd");
    assert!(t.buffer_is_empty());
}

#[test]
fn terminal_state_ignores_alternate_screen() {
    let mut t = MyTerminalState::new();
    t.proccess(TermAction::SetDecMode(DecCode::EnableAlternateScreen));
    t.proccess(TermAction::Print('x'));
    t.proccess(TermAction::LineFeed);
    assert!(t.buffer_is_empty());
    t.proccess(TermAction::ResetDecMode(DecCode::EnableAlternateScreen));
    t.proccess(TermAction::Print('y'));
    t.proccess(TermAction::LineFeed);
    assert_eq!(t.take_buffer(), "y");
}

#[test]
fn collector_joins_printed_characters() {
    let mut c = Collector::new();
    assert_eq!(c.len(), 0);
    c.append_char('a');
    c.print('b');
    assert_eq!(c.len(), 1);
    assert_eq!(c.text_at(0), Some("ab".to_string()));
}
