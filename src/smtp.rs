//! The ingestion dialogue: a state machine from session state and one
//! command line to the next state, a reply, and possibly a finished message.
use vstd::prelude::*;
use crate::mail::{Mail, MailView, encoded_mail, view_strings};
use vstd::string::StringSliceAdditionalSpecFns;
use crate::store::{MailStore, StoreError, key_of};
use crate::text::{chars_of, eq_ignoring_case, equal_ignoring_case, string_of};

verus! {

/// Where a session stands in the dialogue.
#[derive(Debug, Clone, Copy, PartialEq, Eq, Structural)]
pub enum Phase {
    Connected,
    Greeted,
    HaveSender,
    HaveRecipient,
    ReceivingData,
    Closed,
}

/// The reply codes of the dialogue.
#[derive(Debug, Clone, Copy, PartialEq, Eq, Structural)]
pub enum Code {
    /// 250: the command was carried out.
    Done,
    /// 354: send the message text.
    StartInput,
    /// 221: the session ends.
    Closing,
    /// 500: the command is not recognised.
    Unrecognized,
    /// 501: the command's argument is malformed.
    BadArgument,
    /// 503: the command is out of sequence.
    BadSequence,
}

/// A message whose transfer has completed, before it gets an id and a time.
#[derive(Debug, PartialEq, Eq)]
pub struct Envelope {
    pub from: String,
    pub to: Vec<String>,
    pub subject: String,
    pub body: String,
}

pub struct EnvelopeView {
    pub from: Seq<char>,
    pub to: Seq<Seq<char>>,
    pub subject: Seq<char>,
    pub body: Seq<char>,
}

impl View for Envelope {
    type V = EnvelopeView;

    open spec fn view(&self) -> EnvelopeView {
        EnvelopeView { from: self.from@, to: view_strings(self.to@), subject: self.subject@, body: self.body@ }
    }
}

/// One ingestion session: its phase and the message gathered so far.
pub struct Session {
    pub phase: Phase,
    pub from: Vec<char>,
    pub to: Vec<Vec<char>>,
    pub lines: Vec<Vec<char>>,
}

pub struct SessionView {
    pub phase: Phase,
    pub from: Seq<char>,
    pub to: Seq<Seq<char>>,
    pub lines: Seq<Seq<char>>,
}

pub open spec fn view_lines(v: Seq<Vec<char>>) -> Seq<Seq<char>> {
    v.map_values(|x: Vec<char>| x@)
}

impl View for Session {
    type V = SessionView;

    open spec fn view(&self) -> SessionView {
        SessionView { phase: self.phase, from: self.from@, to: view_lines(self.to@), lines: view_lines(self.lines@) }
    }
}

/// What one command line brings about.
#[derive(Debug, PartialEq, Eq)]
pub struct Step {
    /// The reply to send; `None` while message text is being received.
    pub reply: Option<Code>,
    /// The message completed by this line, if any.
    pub message: Option<Envelope>,
}

/// The commands, told apart by their first word.
#[derive(Debug, Clone, Copy, PartialEq, Eq, Structural)]
pub enum Command {
    Hello,
    Mail,
    Recipient,
    Data,
    Reset,
    Noop,
    Quit,
    Unknown,
}

pub open spec fn is_blank(c: char) -> bool {
    c == ' ' || c == '\t'
}

/// `s` without its leading blanks.
pub open spec fn trim_start(s: Seq<char>) -> Seq<char>
    decreases s.len(),
{
    if s.len() > 0 && is_blank(s[0]) {
        trim_start(s.drop_first())
    } else {
        s
    }
}

/// `s` without its trailing blanks.
pub open spec fn trim_end(s: Seq<char>) -> Seq<char>
    decreases s.len(),
{
    if s.len() > 0 && is_blank(s.last()) {
        trim_end(s.drop_last())
    } else {
        s
    }
}

/// `s` without blanks at either end.
pub open spec fn trim_blanks(s: Seq<char>) -> Seq<char> {
    trim_end(trim_start(s))
}

/// Whether `line` starts with the word `verb`, letters compared without
/// regard to case, followed by the end of the line or a blank.
pub open spec fn has_verb(line: Seq<char>, verb: Seq<char>) -> bool {
    line.len() >= verb.len() && equal_ignoring_case(line.subrange(0, verb.len() as int), verb) && (
    line.len() == verb.len() || is_blank(line[verb.len() as int]))
}

/// Whether `line` starts with `prefix`, letters compared without regard to case.
pub open spec fn has_prefix(line: Seq<char>, prefix: Seq<char>) -> bool {
    line.len() >= prefix.len() && equal_ignoring_case(line.subrange(0, prefix.len() as int), prefix)
}

pub open spec fn mail_prefix() -> Seq<char> {
    seq!['M', 'A', 'I', 'L', ' ', 'F', 'R', 'O', 'M', ':']
}

pub open spec fn rcpt_prefix() -> Seq<char> {
    seq!['R', 'C', 'P', 'T', ' ', 'T', 'O', ':']
}

pub open spec fn command_of(line: Seq<char>) -> Command {
    if has_verb(line, seq!['H', 'E', 'L', 'O']) || has_verb(line, seq!['E', 'H', 'L', 'O']) {
        Command::Hello
    } else if has_prefix(line, mail_prefix()) {
        Command::Mail
    } else if has_prefix(line, rcpt_prefix()) {
        Command::Recipient
    } else if has_verb(line, seq!['D', 'A', 'T', 'A']) {
        Command::Data
    } else if has_verb(line, seq!['R', 'S', 'E', 'T']) {
        Command::Reset
    } else if has_verb(line, seq!['N', 'O', 'O', 'P']) {
        Command::Noop
    } else if has_verb(line, seq!['Q', 'U', 'I', 'T']) {
        Command::Quit
    } else {
        Command::Unknown
    }
}

/// The address in the argument `arg` of a sender or recipient command:
/// blanks trimmed, then one pair of angle brackets removed.
pub open spec fn address_of(arg: Seq<char>) -> Seq<char> {
    let t = trim_blanks(arg);
    if t.len() >= 2 && t[0] == '<' && t.last() == '>' {
        t.subrange(1, t.len() - 1)
    } else {
        t
    }
}

/// A message line as received: a leading dot that escapes another is dropped.
pub open spec fn unstuffed(line: Seq<char>) -> Seq<char> {
    if line.len() > 1 && line[0] == '.' {
        line.drop_first()
    } else {
        line
    }
}

/// The lines of a message text joined by line feeds.
pub open spec fn join_lines(lines: Seq<Seq<char>>) -> Seq<char>
    decreases lines.len(),
{
    if lines.len() == 0 {
        Seq::empty()
    } else if lines.len() == 1 {
        lines[0]
    } else {
        join_lines(lines.drop_last()) + seq!['\n'] + lines.last()
    }
}

pub open spec fn subject_prefix() -> Seq<char> {
    seq!['S', 'u', 'b', 'j', 'e', 'c', 't', ':']
}

/// The subject: the value of the first `Subject:` header among the lines
/// before the first empty one, blanks trimmed; empty where there is none.
pub open spec fn subject_of(lines: Seq<Seq<char>>) -> Seq<char>
    decreases lines.len(),
{
    if lines.len() == 0 || lines[0].len() == 0 {
        Seq::empty()
    } else if has_prefix(lines[0], subject_prefix()) {
        trim_blanks(lines[0].subrange(subject_prefix().len() as int, lines[0].len() as int))
    } else {
        subject_of(lines.drop_first())
    }
}

pub open spec fn fresh(phase: Phase) -> SessionView {
    SessionView { phase, from: Seq::empty(), to: Seq::empty(), lines: Seq::empty() }
}

pub open spec fn envelope_of(s: SessionView) -> EnvelopeView {
    EnvelopeView { from: s.from, to: s.to, subject: subject_of(s.lines), body: join_lines(s.lines) }
}

/// The dialogue: the next session, the reply, and the completed message.
pub open spec fn step_spec(s: SessionView, line: Seq<char>) -> (SessionView, Option<Code>, Option<EnvelopeView>) {
    if s.phase == Phase::Closed {
        (s, Some(Code::BadSequence), None)
    } else if s.phase == Phase::ReceivingData {
        if line == seq!['.'] {
            (fresh(Phase::Greeted), Some(Code::Done), Some(envelope_of(s)))
        } else {
            (SessionView { lines: s.lines.push(unstuffed(line)), ..s }, None, None)
        }
    } else {
        match command_of(line) {
            Command::Hello => (fresh(Phase::Greeted), Some(Code::Done), None),
            Command::Mail => if s.phase != Phase::Greeted {
                (s, Some(Code::BadSequence), None)
            } else {
                let a = address_of(line.subrange(mail_prefix().len() as int, line.len() as int));
                if a.len() == 0 {
                    (s, Some(Code::BadArgument), None)
                } else {
                    (SessionView { phase: Phase::HaveSender, from: a, ..s }, Some(Code::Done), None)
                }
            },
            Command::Recipient => if s.phase != Phase::HaveSender && s.phase != Phase::HaveRecipient {
                (s, Some(Code::BadSequence), None)
            } else {
                let a = address_of(line.subrange(rcpt_prefix().len() as int, line.len() as int));
                if a.len() == 0 {
                    (s, Some(Code::BadArgument), None)
                } else {
                    (SessionView { phase: Phase::HaveRecipient, to: s.to.push(a), ..s }, Some(Code::Done), None)
                }
            },
            Command::Data => if s.phase != Phase::HaveRecipient {
                (s, Some(Code::BadSequence), None)
            } else {
                (SessionView { phase: Phase::ReceivingData, lines: Seq::empty(), ..s }, Some(Code::StartInput), None)
            },
            Command::Reset => if s.phase == Phase::Connected {
                (s, Some(Code::Done), None)
            } else {
                (fresh(Phase::Greeted), Some(Code::Done), None)
            },
            Command::Noop => (s, Some(Code::Done), None),
            Command::Quit => (SessionView { phase: Phase::Closed, ..s }, Some(Code::Closing), None),
            Command::Unknown => (s, Some(Code::Unrecognized), None),
        }
    }
}

/// The characters of `s` from `a` up to `b`.
fn copy_range(s: &[char], a: usize, b: usize) -> (r: Vec<char>)
    requires
        a <= b <= s@.len(),
    ensures
        r@ == s@.subrange(a as int, b as int),
{
    let mut r: Vec<char> = Vec::new();
    let mut i: usize = a;
    while i < b
        invariant
            a <= i <= b <= s@.len(),
            r@ == s@.subrange(a as int, i as int),
        decreases b - i,
    {
        r.push(s[i]);
        assert(r@ =~= s@.subrange(a as int, i + 1));
        i = i + 1;
    }
    r
}

fn blank(c: char) -> (r: bool)
    ensures
        r == is_blank(c),
{
    c == ' ' || c == '\t'
}

/// `s@.subrange(a, b)` without blanks at either end.
fn trim_range(s: &[char], a: usize, b: usize) -> (r: Vec<char>)
    requires
        a <= b <= s@.len(),
    ensures
        r@ == trim_blanks(s@.subrange(a as int, b as int)),
{
    let ghost whole = s@.subrange(a as int, b as int);
    let mut i: usize = a;
    assert(whole =~= s@.subrange(i as int, b as int));
    while i < b && blank(s[i])
        invariant
            a <= i <= b <= s@.len(),
            trim_start(whole) == trim_start(s@.subrange(i as int, b as int)),
        decreases b - i,
    {
        assert(s@.subrange(i as int, b as int).drop_first() =~= s@.subrange(i + 1, b as int));
        i = i + 1;
    }
    let ghost st = s@.subrange(i as int, b as int);
    assert(trim_start(whole) == st);
    let mut j: usize = b;
    assert(st =~= s@.subrange(i as int, j as int));
    while j > i && blank(s[j - 1])
        invariant
            a <= i <= j <= b <= s@.len(),
            st == s@.subrange(i as int, b as int),
            trim_end(st) == trim_end(s@.subrange(i as int, j as int)),
        decreases j - i,
    {
        assert(s@.subrange(i as int, j as int).drop_last() =~= s@.subrange(i as int, j - 1));
        j = j - 1;
    }
    copy_range(s, i, j)
}

/// Whether `line` starts with `prefix`, ignoring the case of letters.
fn starts_with_ignoring_case(line: &[char], prefix: &[char]) -> (r: bool)
    ensures
        r == has_prefix(line@, prefix@),
{
    if line.len() < prefix.len() {
        return false;
    }
    let head = copy_range(line, 0, prefix.len());
    eq_ignoring_case(&head, prefix)
}

fn starts_with_verb(line: &[char], verb: &[char]) -> (r: bool)
    ensures
        r == has_verb(line@, verb@),
{
    if !starts_with_ignoring_case(line, verb) {
        return false;
    }
    line.len() == verb.len() || blank(line[verb.len()])
}

fn command(line: &[char]) -> (r: Command)
    ensures
        r == command_of(line@),
{
    let helo = ['H', 'E', 'L', 'O'];
    let ehlo = ['E', 'H', 'L', 'O'];
    let mail = ['M', 'A', 'I', 'L', ' ', 'F', 'R', 'O', 'M', ':'];
    let rcpt = ['R', 'C', 'P', 'T', ' ', 'T', 'O', ':'];
    let data = ['D', 'A', 'T', 'A'];
    let rset = ['R', 'S', 'E', 'T'];
    let noop = ['N', 'O', 'O', 'P'];
    let quit = ['Q', 'U', 'I', 'T'];
    assert(helo@ =~= seq!['H', 'E', 'L', 'O']);
    assert(ehlo@ =~= seq!['E', 'H', 'L', 'O']);
    assert(mail@ =~= mail_prefix());
    assert(rcpt@ =~= rcpt_prefix());
    assert(data@ =~= seq!['D', 'A', 'T', 'A']);
    assert(rset@ =~= seq!['R', 'S', 'E', 'T']);
    assert(noop@ =~= seq!['N', 'O', 'O', 'P']);
    assert(quit@ =~= seq!['Q', 'U', 'I', 'T']);
    if starts_with_verb(line, &helo) || starts_with_verb(line, &ehlo) {
        Command::Hello
    } else if starts_with_ignoring_case(line, &mail) {
        Command::Mail
    } else if starts_with_ignoring_case(line, &rcpt) {
        Command::Recipient
    } else if starts_with_verb(line, &data) {
        Command::Data
    } else if starts_with_verb(line, &rset) {
        Command::Reset
    } else if starts_with_verb(line, &noop) {
        Command::Noop
    } else if starts_with_verb(line, &quit) {
        Command::Quit
    } else {
        Command::Unknown
    }
}

/// The address in the argument that follows position `from` of `line`.
fn address(line: &[char], from: usize) -> (r: Vec<char>)
    requires
        from <= line@.len(),
    ensures
        r@ == address_of(line@.subrange(from as int, line@.len() as int)),
{
    let t = trim_range(line, from, line.len());
    if t.len() >= 2 && t[0] == '<' && t[t.len() - 1] == '>' {
        copy_range(&t, 1, t.len() - 1)
    } else {
        t
    }
}

fn join(lines: &Vec<Vec<char>>) -> (r: Vec<char>)
    ensures
        r@ == join_lines(view_lines(lines@)),
{
    let ghost lv = view_lines(lines@);
    let mut out: Vec<char> = Vec::new();
    let mut i: usize = 0;
    while i < lines.len()
        invariant
            0 <= i <= lines@.len(),
            lv == view_lines(lines@),
            out@ == join_lines(lv.subrange(0, i as int)),
        decreases lines@.len() - i,
    {
        assert(lv.subrange(0, i + 1).drop_last() =~= lv.subrange(0, i as int));
        if i > 0 {
            out.push('\n');
        }
        let mut next = lines[i].clone();
        out.append(&mut next);
        if i == 0 {
            assert(out@ =~= join_lines(lv.subrange(0, 1)));
        } else {
            assert(out@ =~= join_lines(lv.subrange(0, i + 1)));
        }
        i = i + 1;
    }
    assert(lv.subrange(0, lines@.len() as int) =~= lv);
    out
}

fn subject(lines: &Vec<Vec<char>>) -> (r: Vec<char>)
    ensures
        r@ == subject_of(view_lines(lines@)),
{
    let ghost lv = view_lines(lines@);
    let prefix = ['S', 'u', 'b', 'j', 'e', 'c', 't', ':'];
    assert(prefix@ =~= subject_prefix());
    let mut i: usize = 0;
    assert(lv.subrange(0, lv.len() as int) =~= lv);
    while i < lines.len()
        invariant
            0 <= i <= lines@.len(),
            lv == view_lines(lines@),
            prefix@ == subject_prefix(),
            subject_of(lv) == subject_of(lv.subrange(i as int, lv.len() as int)),
        decreases lines@.len() - i,
    {
        let ghost rest = lv.subrange(i as int, lv.len() as int);
        assert(rest.len() > 0);
        assert(rest[0] == lines@[i as int]@);
        assert(subject_prefix().len() == 8);
        let cur = lines[i].as_slice();
        assert(cur@ == rest[0]);
        if cur.len() == 0 {
            return Vec::new();
        }
        if starts_with_ignoring_case(cur, prefix.as_slice()) {
            assert(has_prefix(rest[0], subject_prefix()));
            assert(subject_of(rest) == trim_blanks(rest[0].subrange(8, rest[0].len() as int)));
            return trim_range(cur, 8, cur.len());
        }
        assert(!has_prefix(rest[0], subject_prefix()));
        assert(subject_of(rest) == subject_of(rest.drop_first()));
        assert(rest.drop_first() =~= lv.subrange(i + 1, lv.len() as int));
        i = i + 1;
    }
    Vec::new()
}

fn strings_of(v: &Vec<Vec<char>>) -> (r: Vec<String>)
    ensures
        view_strings(r@) == view_lines(v@),
{
    let mut r: Vec<String> = Vec::new();
    let mut i: usize = 0;
    while i < v.len()
        invariant
            0 <= i <= v@.len(),
            view_strings(r@) == view_lines(v@.subrange(0, i as int)),
        decreases v@.len() - i,
    {
        let ghost before = r@;
        r.push(string_of(&v[i]));
        assert(view_strings(r@) =~= view_strings(before).push(v@[i as int]@));
        assert(view_lines(v@.subrange(0, i + 1)) =~= view_lines(v@.subrange(0, i as int)).push(v@[i as int]@));
        i = i + 1;
    }
    assert(v@.subrange(0, v@.len() as int) =~= v@);
    r
}

impl Session {
    /// A session on a connection that has just been accepted.
    pub fn new() -> (r: Session)
        ensures
            r@ == fresh(Phase::Connected),
    {
        let r = Session { phase: Phase::Connected, from: Vec::new(), to: Vec::new(), lines: Vec::new() };
        assert(r@.to =~= Seq::<Seq<char>>::empty());
        assert(r@.lines =~= Seq::<Seq<char>>::empty());
        r
    }

    fn reset(&mut self, phase: Phase)
        ensures
            final(self)@ == fresh(phase),
    {
        self.phase = phase;
        self.from = Vec::new();
        self.to = Vec::new();
        self.lines = Vec::new();
        assert(final(self)@.to =~= Seq::<Seq<char>>::empty());
        assert(final(self)@.lines =~= Seq::<Seq<char>>::empty());
    }

    /// Takes one command line, or one line of message text, without its line end.
    pub fn step(&mut self, line: &str) -> (r: Step)
        ensures
            step_spec(old(self)@, line@) == (final(self)@, r.reply, match r.message {
                Some(e) => Some(e@),
                None => None,
            }),
    {
        let cs = chars_of(line);
        if self.phase == Phase::Closed {
            return Step { reply: Some(Code::BadSequence), message: None };
        }
        if self.phase == Phase::ReceivingData {
            if cs.len() == 1 && cs[0] == '.' {
                assert(cs@ =~= seq!['.']);
                let env = Envelope {
                    from: string_of(&self.from),
                    to: strings_of(&self.to),
                    subject: string_of(&subject(&self.lines)),
                    body: string_of(&join(&self.lines)),
                };
                self.reset(Phase::Greeted);
                return Step { reply: Some(Code::Done), message: Some(env) };
            }
            assert(cs@ != seq!['.']);
            let kept = if cs.len() > 1 && cs[0] == '.' {
                copy_range(&cs, 1, cs.len())
            } else {
                cs
            };
            assert(kept@ =~= unstuffed(line@));
            let ghost before = self.lines@;
            self.lines.push(kept);
            assert(view_lines(self.lines@) =~= view_lines(before).push(kept@));
            return Step { reply: None, message: None };
        }
        match command(&cs) {
            Command::Hello => {
                self.reset(Phase::Greeted);
                Step { reply: Some(Code::Done), message: None }
            },
            Command::Mail => {
                if self.phase != Phase::Greeted {
                    return Step { reply: Some(Code::BadSequence), message: None };
                }
                let a = address(&cs, 10);
                if a.len() == 0 {
                    return Step { reply: Some(Code::BadArgument), message: None };
                }
                self.phase = Phase::HaveSender;
                self.from = a;
                Step { reply: Some(Code::Done), message: None }
            },
            Command::Recipient => {
                if self.phase != Phase::HaveSender && self.phase != Phase::HaveRecipient {
                    return Step { reply: Some(Code::BadSequence), message: None };
                }
                let a = address(&cs, 8);
                if a.len() == 0 {
                    return Step { reply: Some(Code::BadArgument), message: None };
                }
                self.phase = Phase::HaveRecipient;
                let ghost before = self.to@;
                let ghost av = a@;
                self.to.push(a);
                assert(view_lines(self.to@) =~= view_lines(before).push(av));
                Step { reply: Some(Code::Done), message: None }
            },
            Command::Data => {
                if self.phase != Phase::HaveRecipient {
                    return Step { reply: Some(Code::BadSequence), message: None };
                }
                self.phase = Phase::ReceivingData;
                self.lines = Vec::new();
                assert(view_lines(self.lines@) =~= Seq::<Seq<char>>::empty());
                Step { reply: Some(Code::StartInput), message: None }
            },
            Command::Reset => {
                if self.phase != Phase::Connected {
                    self.reset(Phase::Greeted);
                }
                Step { reply: Some(Code::Done), message: None }
            },
            Command::Noop => Step { reply: Some(Code::Done), message: None },
            Command::Quit => {
                self.phase = Phase::Closed;
                Step { reply: Some(Code::Closing), message: None }
            },
            Command::Unknown => Step { reply: Some(Code::Unrecognized), message: None },
        }
    }
}

pub open spec fn mail_from_envelope(e: EnvelopeView, id: Seq<char>, received_at: u64) -> MailView {
    MailView { id, from: e.from, to: e.to, subject: e.subject, body: e.body, received_at }
}

impl Envelope {
    /// The record of this message under id `id`, received at `received_at`.
    pub fn into_mail(self, id: String, received_at: u64) -> (r: Mail)
        ensures
            r@ == mail_from_envelope(self@, id@, received_at),
    {
        Mail { id, from: self.from, to: self.to, subject: self.subject, body: self.body, received_at }
    }
}

/// Stores a completed message under `id` with receipt time `received_at`.
pub fn ingest(store: &mut MailStore, message: Envelope, id: String, received_at: u64) -> (r: Result<(), StoreError>)
    ensures
        r is Ok ==> final(store).contents() == old(store).contents().insert(
            key_of(id@),
            encoded_mail(mail_from_envelope(message@, id@, received_at)),
        ),
        final(store).contents().remove(key_of(id@)) == old(store).contents().remove(key_of(id@)),
        r matches Err(e) ==> e == StoreError::Engine,
{
    let m = message.into_mail(id, received_at);
    store.put(&m)
}

pub open spec fn reply_spec(c: Code) -> Seq<u8> {
    match c {
        Code::Done => "250 OK\r\n".spec_bytes(),
        Code::StartInput => "354 End data with <CR><LF>.<CR><LF>\r\n".spec_bytes(),
        Code::Closing => "221 Bye\r\n".spec_bytes(),
        Code::Unrecognized => "500 Command not recognized\r\n".spec_bytes(),
        Code::BadArgument => "501 Syntax error in parameters\r\n".spec_bytes(),
        Code::BadSequence => "503 Bad sequence of commands\r\n".spec_bytes(),
    }
}

/// The line that answers a command with `c`.
pub fn reply_line(c: Code) -> (r: Vec<u8>)
    ensures
        r@ == reply_spec(c),
{
    let text: &str = match c {
        Code::Done => "250 OK\r\n",
        Code::StartInput => "354 End data with <CR><LF>.<CR><LF>\r\n",
        Code::Closing => "221 Bye\r\n",
        Code::Unrecognized => "500 Command not recognized\r\n",
        Code::BadArgument => "501 Syntax error in parameters\r\n",
        Code::BadSequence => "503 Bad sequence of commands\r\n",
    };
    vstd::slice::slice_to_vec(text.as_bytes())
}

/// The line sent when a connection is accepted.
pub fn greeting() -> (r: Vec<u8>)
    ensures
        r@ == "220 mail capture ready\r\n".spec_bytes(),
{
    vstd::slice::slice_to_vec("220 mail capture ready\r\n".as_bytes())
}

} // verus!
