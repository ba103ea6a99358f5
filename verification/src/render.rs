//! Rendering of terminal output to plain text: printable characters are
//! collected into lines, backspaces undo them, and whatever a program draws
//! on the alternate screen (editors, pagers) is left out.
use vstd::prelude::*;
use termwiz::escape::csi::{DecPrivateMode, DecPrivateModeCode, Mode};
use termwiz::escape::parser::Parser;
use termwiz::escape::{Action, ControlCode, CSI};

verus! {

#[verifier::external_type_specification]
#[verifier::external_body]
pub struct ExParser(Parser);

#[verifier::external_type_specification]
#[verifier::external_body]
pub struct ExDecPrivateModeCode(DecPrivateModeCode);

/// `termwiz::escape::parser::Parser::new` makes a parser in its ground
/// state; nothing is stated of the value.
pub assume_specification[ Parser::new ]() -> Parser;

/// The private mode codes that matter to the renderer.
#[derive(Debug, Clone, Copy, PartialEq, Eq)]
pub enum DecCode {
    ClearAndEnableAlternateScreen,
    EnableAlternateScreen,
    OptEnableAlternateScreen,
    Other,
}

/// The terminal actions that matter to the renderer.
#[derive(Debug, Clone, Copy, PartialEq, Eq)]
pub enum TermAction {
    /// A printable character.
    Print(char),
    /// The line feed control code.
    LineFeed,
    /// The backspace control code.
    Backspace,
    /// A private mode was set.
    SetDecMode(DecCode),
    /// A private mode was reset.
    ResetDecMode(DecCode),
    /// Anything else.
    Other,
}

/// Tells the `DecPrivateModeCode` variants that matter apart.
#[verifier::external_body]
fn dec_code_of(code: &DecPrivateModeCode) -> (r: DecCode) {
    match code {
        DecPrivateModeCode::ClearAndEnableAlternateScreen => DecCode::ClearAndEnableAlternateScreen,
        DecPrivateModeCode::EnableAlternateScreen => DecCode::EnableAlternateScreen,
        DecPrivateModeCode::OptEnableAlternateScreen => DecCode::OptEnableAlternateScreen,
        _ => DecCode::Other,
    }
}

/// What `termwiz::escape::parser::Parser::parse_first` gives for `bytes`,
/// from a parser that was made by `Parser::new` and has been fed `fed`
/// since: the first action recognized (as a `TermAction`) and the number of
/// bytes fed to recognize it, or `None`.
pub uninterp spec fn parse_first_result(fed: Seq<u8>, bytes: Seq<u8>) -> Option<(TermAction, nat)>;

/// Calls `termwiz::escape::parser::Parser::parse_first` on the renderer's
/// parser, whose state is a function of the bytes fed to it since it was
/// made (`fed` in the renderer's view). The call feeds bytes one by one
/// until a byte completes an action, and returns the first action of that
/// byte with the number of bytes fed; when no byte does, it has fed them
/// all and returns `None`. The result is named by `parse_first_result`; the
/// count is at least 1 and at most the number of bytes given (the source
/// returns the index of the byte plus one). The action is never the printing
/// of a line feed: the parser prints only bytes 0x20 to 0x7f and decoded
/// UTF-8 characters, and hands a decoded character that is a control code
/// (a line feed among them) to the control-code path instead. Nothing but
/// the parser changes.
#[verifier::external_body]
fn parse_first(render: &mut TextRender, bytes: &[u8]) -> (r: Option<(TermAction, usize)>)
    ensures
        match r {
            Some((a, n)) => {
                &&& parse_first_result(old(render)@.fed, bytes@) == Some((a, n as nat))
                &&& 1 <= n <= bytes@.len()
                &&& a != TermAction::Print('\n')
                &&& final(render)@ == (TextModel {
                    fed: old(render)@.fed + bytes@.take(n as int),
                    ..old(render)@
                })
            },
            None => {
                &&& parse_first_result(old(render)@.fed, bytes@) is None
                &&& final(render)@ == (TextModel { fed: old(render)@.fed + bytes@, ..old(render)@ })
            },
        },
{
    let (action, read) = render.parser.parse_first(bytes)?;
    let a = match action {
        Action::Print(c) => TermAction::Print(c),
        Action::Control(ControlCode::LineFeed) => TermAction::LineFeed,
        Action::Control(ControlCode::Backspace) => TermAction::Backspace,
        Action::CSI(CSI::Mode(Mode::SetDecPrivateMode(DecPrivateMode::Code(c)))) => TermAction::SetDecMode(dec_code_of(&c)),
        Action::CSI(CSI::Mode(Mode::ResetDecPrivateMode(DecPrivateMode::Code(c)))) => TermAction::ResetDecMode(dec_code_of(&c)),
        _ => TermAction::Other,
    };
    Some((a, read))
}

/// Whether a private mode code switches the alternate screen.
pub open spec fn is_alternate_screen(code: DecCode) -> bool {
    code != DecCode::Other
}

/// Executable `is_alternate_screen`.
pub fn alternate_screen_code(code: DecCode) -> (r: bool)
    ensures
        r == is_alternate_screen(code),
{
    match code {
        DecCode::ClearAndEnableAlternateScreen => true,
        DecCode::EnableAlternateScreen => true,
        DecCode::OptEnableAlternateScreen => true,
        DecCode::Other => false,
    }
}

/// The state of a text renderer.
pub struct TextModel {
    /// The bytes fed to the renderer's escape sequence parser so far.
    pub fed: Seq<u8>,
    /// Whether the terminal shows the alternate screen.
    pub alternate_mode: bool,
    /// The line being typed.
    pub current_line: Seq<char>,
    /// The text written out so far.
    pub written: Seq<char>,
}

/// The effect of one action on a text renderer.
pub open spec fn render_action(m: TextModel, a: TermAction) -> TextModel {
    match a {
        TermAction::Print(c) => if !m.alternate_mode {
            TextModel { current_line: m.current_line.push(c), ..m }
        } else {
            m
        },
        TermAction::LineFeed => if !m.alternate_mode {
            TextModel {
                written: m.written + m.current_line.push('\n'),
                current_line: Seq::empty(),
                ..m
            }
        } else {
            m
        },
        TermAction::Backspace => if !m.alternate_mode && m.current_line.len() > 0 {
            TextModel { current_line: m.current_line.drop_last(), ..m }
        } else {
            m
        },
        TermAction::SetDecMode(code) => if is_alternate_screen(code) {
            TextModel { alternate_mode: true, ..m }
        } else {
            m
        },
        TermAction::ResetDecMode(code) => if is_alternate_screen(code) {
            TextModel { alternate_mode: false, ..m }
        } else {
            m
        },
        TermAction::Other => m,
    }
}

/// The effect of a sequence of actions, in order.
pub open spec fn render_actions(m: TextModel, acts: Seq<TermAction>) -> TextModel
    decreases acts.len(),
{
    if acts.len() == 0 {
        m
    } else {
        render_actions(render_action(m, acts[0]), acts.drop_first())
    }
}

/// The actions that the parser finds in `data`, having been fed `fed`
/// before: the first action of each run of bytes that completes one, in
/// order.
pub open spec fn parsed_actions(fed: Seq<u8>, data: Seq<u8>) -> Seq<TermAction>
    decreases data.len(),
{
    match parse_first_result(fed, data) {
        Some((a, n)) => if 1 <= n <= data.len() {
            seq![a] + parsed_actions(fed + data.take(n as int), data.skip(n as int))
        } else {
            Seq::empty()
        },
        None => Seq::empty(),
    }
}

/// Renders the output of a terminal to plain text, one line at a time.
pub struct TextRender {
    parser: Parser,
    fed: Ghost<Seq<u8>>,
    alternate_mode: bool,
    current_line: Vec<char>,
    written: Vec<char>,
}

impl View for TextRender {
    type V = TextModel;

    closed spec fn view(&self) -> TextModel {
        TextModel {
            fed: self.fed@,
            alternate_mode: self.alternate_mode,
            current_line: self.current_line@,
            written: self.written@,
        }
    }
}

impl TextRender {
    /// A renderer with nothing written, outside the alternate screen.
    pub fn new() -> (r: Self)
        ensures
            r@ == (TextModel {
                fed: Seq::empty(),
                alternate_mode: false,
                current_line: Seq::empty(),
                written: Seq::empty(),
            }),
    {
        TextRender {
            parser: Parser::new(),
            fed: Ghost(Seq::empty()),
            alternate_mode: false,
            current_line: Vec::new(),
            written: Vec::new(),
        }
    }

    /// Applies one action.
    pub fn handle_action(&mut self, a: TermAction)
        ensures
            final(self)@ == render_action(old(self)@, a),
    {
        match a {
            TermAction::Print(c) => {
                if !self.alternate_mode {
                    self.current_line.push(c);
                }
            },
            TermAction::LineFeed => {
                if !self.alternate_mode {
                    self.current_line.push('\n');
                    self.flush();
                }
            },
            TermAction::Backspace => {
                if !self.alternate_mode {
                    self.current_line.pop();
                }
            },
            TermAction::SetDecMode(code) => {
                if alternate_screen_code(code) {
                    self.alternate_mode = true;
                }
            },
            TermAction::ResetDecMode(code) => {
                if alternate_screen_code(code) {
                    self.alternate_mode = false;
                }
            },
            TermAction::Other => {},
        }
    }

    /// Writes out the line being typed, and starts a new one.
    pub fn flush(&mut self)
        ensures
            final(self)@ == (TextModel {
                written: old(self)@.written + old(self)@.current_line,
                current_line: Seq::empty(),
                ..old(self)@
            }),
    {
        let mut line: Vec<char> = Vec::new();
        std::mem::swap(&mut line, &mut self.current_line);
        crate::text::extend_chars(&mut self.written, line.as_slice());
    }

    /// Parses terminal output and applies the actions that the parser finds
    /// in it, in order; a sequence cut at the end of `data` is completed by
    /// the next call.
    pub fn on_data(&mut self, data: &[u8])
        ensures
            final(self)@ == (TextModel {
                fed: old(self)@.fed + data@,
                ..render_actions(old(self)@, parsed_actions(old(self)@.fed, data@))
            }),
            forall|i: int|
                0 <= i < parsed_actions(old(self)@.fed, data@).len() ==> #[trigger] parsed_actions(
                    old(self)@.fed,
                    data@,
                )[i] != TermAction::Print('\n'),
            !old(self)@.current_line.contains('\n') ==> !final(self)@.current_line.contains('\n'),
    {
        let mut pos: usize = 0;
        let ghost mut acts: Seq<TermAction> = Seq::empty();
        let ghost all = parsed_actions(old(self)@.fed, data@);
        proof {
            assert(data@.skip(0) =~= data@);
            assert(old(self)@.fed + data@.take(0) =~= old(self)@.fed);
            assert(acts + all =~= all);
        }
        while pos < data.len()
            invariant
                pos <= data@.len(),
                self@.fed == old(self)@.fed + data@.take(pos as int),
                self@ == (TextModel { fed: self@.fed, ..render_actions(old(self)@, acts) }),
                acts + parsed_actions(self@.fed, data@.skip(pos as int)) == all,
                forall|i: int| 0 <= i < acts.len() ==> #[trigger] acts[i] != TermAction::Print('\n'),
                !old(self)@.current_line.contains('\n') ==> !self@.current_line.contains('\n'),
            decreases data@.len() - pos,
        {
            let rest = slice_from(data, pos);
            assert(rest@ == data@.skip(pos as int));
            let ghost fed0 = self@.fed;
            match parse_first(self, rest.as_slice()) {
                Some((a, read)) => {
                    proof {
                        if !self@.current_line.contains('\n') {
                            law_current_line_has_no_line_feed(self@, a);
                        }
                    }
                    self.handle_action(a);
                    proof {
                        lemma_render_actions_push(old(self)@, acts, a);
                        lemma_render_actions_fed(old(self)@, acts);
                        lemma_render_actions_fed(old(self)@, acts.push(a));
                        assert(rest@.skip(read as int) =~= data@.skip(pos + read));
                        assert(fed0 + rest@.take(read as int) =~= old(self)@.fed + data@.take(
                            pos + read,
                        ));
                        assert(parsed_actions(fed0, rest@) == seq![a] + parsed_actions(
                            fed0 + rest@.take(read as int),
                            rest@.skip(read as int),
                        ));
                        assert(acts.push(a) + parsed_actions(self@.fed, data@.skip(pos + read))
                            =~= acts + parsed_actions(fed0, rest@));
                        acts = acts.push(a);
                    }
                    pos = pos + read;
                },
                None => {
                    proof {
                        assert(fed0 + rest@ =~= old(self)@.fed + data@.take(data@.len() as int));
                        assert(data@.skip(data@.len() as int) =~= Seq::<u8>::empty());
                    }
                    pos = data.len();
                },
            }
        }
        proof {
            assert(data@.take(data@.len() as int) =~= data@);
            assert(data@.skip(data@.len() as int) =~= Seq::<u8>::empty());
            assert(parsed_actions(self@.fed, Seq::<u8>::empty()) =~= Seq::<TermAction>::empty());
            assert(acts + Seq::<TermAction>::empty() =~= acts);
        }
    }

    /// Takes the text written out so far, leaving nothing written.
    pub fn take_written(&mut self) -> (r: String)
        ensures
            r@ == old(self)@.written,
            final(self)@ == (TextModel { written: Seq::empty(), ..old(self)@ }),
    {
        let mut w: Vec<char> = Vec::new();
        std::mem::swap(&mut w, &mut self.written);
        crate::text::string_of(w.as_slice())
    }

    /// Whether nothing was written out since the last `take_written`.
    pub fn written_is_empty(&self) -> (r: bool)
        ensures
            r == (self@.written.len() == 0),
    {
        self.written.len() == 0
    }
}

/// Applying one more action extends the fold by that action.
pub proof fn lemma_render_actions_push(m: TextModel, acts: Seq<TermAction>, a: TermAction)
    ensures
        render_actions(m, acts.push(a)) == render_action(render_actions(m, acts), a),
    decreases acts.len(),
{
    if acts.len() > 0 {
        lemma_render_actions_push(render_action(m, acts[0]), acts.drop_first(), a);
        assert(acts.push(a).drop_first() =~= acts.drop_first().push(a));
        assert(acts.push(a)[0] == acts[0]);
    } else {
        let one = acts.push(a);
        assert(one.drop_first() =~= Seq::<TermAction>::empty());
        assert(one[0] == a);
        assert(render_actions(render_action(m, a), one.drop_first()) == render_action(m, a));
    }
}

/// Actions leave the bytes fed to the parser as they are.
pub proof fn lemma_render_actions_fed(m: TextModel, acts: Seq<TermAction>)
    ensures
        render_actions(m, acts).fed == m.fed,
    decreases acts.len(),
{
    if acts.len() > 0 {
        lemma_render_actions_fed(render_action(m, acts[0]), acts.drop_first());
    }
}

/// The bytes of `data` from `pos` on.
fn slice_from(data: &[u8], pos: usize) -> (r: Vec<u8>)
    requires
        pos <= data@.len(),
    ensures
        r@ == data@.subrange(pos as int, data@.len() as int),
{
    let mut r: Vec<u8> = Vec::new();
    let mut i = pos;
    while i < data.len()
        invariant
            pos <= i <= data@.len(),
            r@ == data@.subrange(pos as int, i as int),
        decreases data@.len() - i,
    {
        r.push(data[i]);
        i = i + 1;
    }
    r
}

/// Whether an action leaves the alternate screen.
pub open spec fn leaves_alternate_screen(a: TermAction) -> bool {
    a matches TermAction::ResetDecMode(code) && is_alternate_screen(code)
}

/// What is drawn on the alternate screen is not rendered: from the
/// alternate screen, actions that do not leave it change neither the text
/// written nor the line being typed.
pub proof fn law_alternate_screen_not_rendered(m: TextModel, acts: Seq<TermAction>)
    requires
        m.alternate_mode,
        forall|i: int| 0 <= i < acts.len() ==> !leaves_alternate_screen(#[trigger] acts[i]),
    ensures
        render_actions(m, acts).written == m.written,
        render_actions(m, acts).current_line == m.current_line,
        render_actions(m, acts).alternate_mode,
    decreases acts.len(),
{
    if acts.len() > 0 {
        assert(!leaves_alternate_screen(acts[0]));
        let m1 = render_action(m, acts[0]);
        assert(m1.alternate_mode && m1.written == m.written && m1.current_line == m.current_line);
        assert forall|i: int| 0 <= i < acts.drop_first().len() implies !leaves_alternate_screen(
            #[trigger] acts.drop_first()[i],
        ) by {
            assert(acts.drop_first()[i] == acts[i + 1]);
        }
        law_alternate_screen_not_rendered(m1, acts.drop_first());
    }
}

/// Text once written stays written: actions only append to it.
pub proof fn law_written_only_grows(m: TextModel, acts: Seq<TermAction>)
    ensures
        m.written.len() <= render_actions(m, acts).written.len(),
        render_actions(m, acts).written.subrange(0, m.written.len() as int) == m.written,
    decreases acts.len(),
{
    if acts.len() > 0 {
        let m1 = render_action(m, acts[0]);
        assert(m1.written.subrange(0, m.written.len() as int) =~= m.written);
        law_written_only_grows(m1, acts.drop_first());
        let r = render_actions(m1, acts.drop_first());
        assert(r.written.subrange(0, m.written.len() as int) =~= r.written.subrange(
            0,
            m1.written.len() as int,
        ).subrange(0, m.written.len() as int));
    }
}

/// The line being typed holds no line feed: a line feed writes the line
/// out, so no action but printing a line feed character can put one there.
/// A backspace on an empty line leaves it empty.
pub proof fn law_current_line_has_no_line_feed(m: TextModel, a: TermAction)
    requires
        !m.current_line.contains('\n'),
        a != TermAction::Print('\n'),
    ensures
        !render_action(m, a).current_line.contains('\n'),
        a == TermAction::Backspace && m.current_line.len() == 0 ==> render_action(m, a).current_line.len()
            == 0,
{
    let r = render_action(m, a);
    if r.current_line.contains('\n') {
        let i = choose|i: int| 0 <= i < r.current_line.len() && r.current_line[i] == '\n';
        match a {
            TermAction::Print(c) => {
                if !m.alternate_mode {
                    assert(i < m.current_line.len() ==> r.current_line[i] == m.current_line[i]);
                }
            },
            TermAction::Backspace => {
                if !m.alternate_mode && m.current_line.len() > 0 {
                    assert(r.current_line[i] == m.current_line[i]);
                }
            },
            _ => {},
        }
    }
}

/// Each of the three private modes that switch the alternate screen
/// (1049 `ClearAndEnableAlternateScreen`, 47 `EnableAlternateScreen`, 1047
/// `OptEnableAlternateScreen`) enters it when set and leaves it when reset,
/// from any state; any other private mode leaves the state as it is. The
/// same holds of the terminal of a recorded session.
pub proof fn law_alternate_screen_modes(m: TextModel, t: TerminalStateModel, code: DecCode)
    ensures
        code == DecCode::ClearAndEnableAlternateScreen || code == DecCode::EnableAlternateScreen
            || code == DecCode::OptEnableAlternateScreen ==> {
            &&& render_action(m, TermAction::SetDecMode(code)) == (TextModel { alternate_mode: true, ..m })
            &&& render_action(m, TermAction::ResetDecMode(code)) == (TextModel {
                alternate_mode: false,
                ..m
            })
            &&& terminal_action(t, TermAction::SetDecMode(code)) == (TerminalStateModel {
                alternate_mode: true,
                ..t
            })
            &&& terminal_action(t, TermAction::ResetDecMode(code)) == (TerminalStateModel {
                alternate_mode: false,
                ..t
            })
        },
        code == DecCode::Other ==> render_action(m, TermAction::SetDecMode(code)) == m
            && render_action(m, TermAction::ResetDecMode(code)) == m && terminal_action(
            t,
            TermAction::SetDecMode(code),
        ) == t && terminal_action(t, TermAction::ResetDecMode(code)) == t,
{
}

/// The state of the terminal of a recorded shell session: the text
/// collected so far and the line being typed.
pub struct TerminalStateModel {
    pub alternate_mode: bool,
    pub buffer: Seq<char>,
    pub current_line: Seq<char>,
}

/// The effect of one action on a recorded terminal.
pub open spec fn terminal_action(m: TerminalStateModel, a: TermAction) -> TerminalStateModel {
    match a {
        TermAction::Print(c) => if !m.alternate_mode {
            TerminalStateModel { current_line: m.current_line.push(c), ..m }
        } else {
            m
        },
        TermAction::LineFeed => if !m.alternate_mode {
            terminal_flush(m)
        } else {
            m
        },
        TermAction::Backspace => if !m.alternate_mode && m.current_line.len() > 0 {
            TerminalStateModel { current_line: m.current_line.drop_last(), ..m }
        } else {
            m
        },
        TermAction::SetDecMode(code) => if is_alternate_screen(code) {
            TerminalStateModel { alternate_mode: true, ..m }
        } else {
            m
        },
        TermAction::ResetDecMode(code) => if is_alternate_screen(code) {
            TerminalStateModel { alternate_mode: false, ..m }
        } else {
            m
        },
        TermAction::Other => m,
    }
}

/// Moves the line being typed to the collected text; the next line starts
/// with the line break.
pub open spec fn terminal_flush(m: TerminalStateModel) -> TerminalStateModel {
    TerminalStateModel { buffer: m.buffer + m.current_line, current_line: seq!['\n'], ..m }
}

/// The terminal of a recorded shell session, as plain text.
pub struct MyTerminalState {
    alternate_mode: bool,
    buffer: Vec<char>,
    current_line: Vec<char>,
}

impl View for MyTerminalState {
    type V = TerminalStateModel;

    closed spec fn view(&self) -> TerminalStateModel {
        TerminalStateModel {
            alternate_mode: self.alternate_mode,
            buffer: self.buffer@,
            current_line: self.current_line@,
        }
    }
}

impl MyTerminalState {
    /// A terminal with nothing collected.
    pub fn new() -> (r: Self)
        ensures
            r@ == (TerminalStateModel {
                alternate_mode: false,
                buffer: Seq::empty(),
                current_line: Seq::empty(),
            }),
    {
        MyTerminalState { alternate_mode: false, buffer: Vec::new(), current_line: Vec::new() }
    }

    /// Moves the line being typed to the collected text.
    pub fn flush(&mut self)
        ensures
            final(self)@ == terminal_flush(old(self)@),
    {
        crate::text::extend_chars(&mut self.buffer, self.current_line.as_slice());
        self.current_line = Vec::new();
        self.current_line.push('\n');
        assert(self.current_line@ =~= seq!['\n']);
    }

    /// Applies one action.
    pub fn proccess(&mut self, action: TermAction)
        ensures
            final(self)@ == terminal_action(old(self)@, action),
    {
        match action {
            TermAction::Print(c) => {
                if !self.alternate_mode {
                    self.current_line.push(c);
                }
            },
            TermAction::LineFeed => {
                if !self.alternate_mode {
                    self.flush();
                }
            },
            TermAction::Backspace => {
                if !self.alternate_mode {
                    self.current_line.pop();
                }
            },
            TermAction::SetDecMode(code) => {
                if alternate_screen_code(code) {
                    self.alternate_mode = true;
                }
            },
            TermAction::ResetDecMode(code) => {
                if alternate_screen_code(code) {
                    self.alternate_mode = false;
                }
            },
            TermAction::Other => {},
        }
    }

    /// Takes the collected text, leaving none.
    pub fn take_buffer(&mut self) -> (r: String)
        ensures
            r@ == old(self)@.buffer,
            final(self)@ == (TerminalStateModel { buffer: Seq::empty(), ..old(self)@ }),
    {
        let mut b: Vec<char> = Vec::new();
        std::mem::swap(&mut b, &mut self.buffer);
        crate::text::string_of(b.as_slice())
    }

    /// Whether nothing is collected.
    pub fn buffer_is_empty(&self) -> (r: bool)
        ensures
            r == (self@.buffer.len() == 0),
    {
        self.buffer.len() == 0
    }
}

} // verus!
