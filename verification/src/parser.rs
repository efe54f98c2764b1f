//! The message parser: one line of the wire protocol in, a command or a
//! parse error out.
//!
//! A line is an optional prefix `:<source> `, a command word, and
//! parameters separated by single spaces; a parameter that starts with `:`
//! runs to the end of the line. The grammar is stated over sequences of
//! characters (`scan`, `interpret`, `parse`); the executable functions are
//! proved to compute exactly that.

use crate::text::{chars_of, slice_of, texts};
use vstd::prelude::*;

verus! {

/// The identity a client gives with `USER`.
#[derive(Debug, PartialEq, Eq)]
pub struct User {
    pub user: String,
    pub mode: String,
    pub realname: String,
}

/// What a `User` holds, as plain sequences of characters.
pub struct UserView {
    pub user: Seq<char>,
    pub mode: Seq<char>,
    pub realname: Seq<char>,
}

impl View for User {
    type V = UserView;

    open spec fn view(&self) -> UserView {
        UserView { user: self.user@, mode: self.mode@, realname: self.realname@ }
    }
}

impl User {
    /// A user record of these three parts.
    pub fn new(user: String, mode: String, realname: String) -> (r: Self)
        ensures
            r.user == user,
            r.mode == mode,
            r.realname == realname,
    {
        User { user: user, mode: mode, realname: realname }
    }
}

impl Clone for User {
    fn clone(&self) -> (r: Self)
        ensures
            r@ == self@,
    {
        User {
            user: self.user.clone(),
            mode: self.mode.clone(),
            realname: self.realname.clone(),
        }
    }
}

/// A command of the protocol, as the server understands it.
#[derive(Debug, PartialEq, Eq)]
pub enum Command {
    /// `NICK <nickname>`
    Nick(String),
    /// `USER <user> <mode> <unused> :<realname>`
    User(User),
    /// `QUIT [:<message>]`
    Quit(String),
    /// `PRIVMSG <target> :<text>`
    Privmsg(String, String),
    /// `NOTICE <target> :<text>`
    Notice(String, String),
    Ping,
    Pong,
    Motd,
    Lusers,
    /// `WHOIS <target>`
    Whois(String),
    /// Any other command word.
    Unknown(String),
}

/// What a `Command` holds, as plain sequences of characters.
pub enum CommandView {
    Nick(Seq<char>),
    User(UserView),
    Quit(Seq<char>),
    Privmsg(Seq<char>, Seq<char>),
    Notice(Seq<char>, Seq<char>),
    Ping,
    Pong,
    Motd,
    Lusers,
    Whois(Seq<char>),
    Unknown(Seq<char>),
}

impl View for Command {
    type V = CommandView;

    open spec fn view(&self) -> CommandView {
        match self {
            Command::Nick(n) => CommandView::Nick(n@),
            Command::User(u) => CommandView::User(u@),
            Command::Quit(m) => CommandView::Quit(m@),
            Command::Privmsg(t, x) => CommandView::Privmsg(t@, x@),
            Command::Notice(t, x) => CommandView::Notice(t@, x@),
            Command::Ping => CommandView::Ping,
            Command::Pong => CommandView::Pong,
            Command::Motd => CommandView::Motd,
            Command::Lusers => CommandView::Lusers,
            Command::Whois(t) => CommandView::Whois(t@),
            Command::Unknown(c) => CommandView::Unknown(c@),
        }
    }
}

/// A line cut into its parts, before the command word is looked at.
#[derive(Debug, PartialEq, Eq)]
pub struct Message {
    pub prefix: Option<String>,
    pub command: String,
    pub params: Vec<String>,
}

/// What a `Message` holds, as plain sequences of characters.
pub struct MessageView {
    pub prefix: Option<Seq<char>>,
    pub command: Seq<char>,
    pub params: Seq<Seq<char>>,
}

impl View for Message {
    type V = MessageView;

    open spec fn view(&self) -> MessageView {
        MessageView {
            prefix: match self.prefix {
                Some(p) => Some(p@),
                None => None,
            },
            command: self.command@,
            params: texts(self.params@),
        }
    }
}

impl Message {
    /// A message with nothing in it.
    pub fn new() -> (r: Self)
        ensures
            r@ == (MessageView { prefix: None, command: Seq::empty(), params: Seq::empty() }),
    {
        let r = Message { prefix: None, command: String::new(), params: Vec::new() };
        assert(texts(r.params@) =~= Seq::empty());
        r
    }
}

/// The line without its terminator: a final `\r\n`, or else a final `\n`,
/// is taken off; nothing else is.
pub open spec fn strip_line_end(s: Seq<char>) -> Seq<char> {
    if s.len() >= 2 && s[s.len() - 2] == '\r' && s[s.len() - 1] == '\n' {
        s.take(s.len() - 2)
    } else if s.len() >= 1 && s[s.len() - 1] == '\n' {
        s.take(s.len() - 1)
    } else {
        s
    }
}

/// The position of the first space of `s` at or after `from`; the length of
/// `s` where there is none.
pub open spec fn first_space(s: Seq<char>, from: int) -> int
    decreases s.len() - from,
{
    if from < 0 || from >= s.len() {
        s.len() as int
    } else if s[from] == ' ' {
        from
    } else {
        first_space(s, from + 1)
    }
}

/// The parameters of `s` that start at position `ix`: words separated by
/// single spaces, and a last one that starts with `:` and runs to the end.
pub open spec fn params_from(s: Seq<char>, ix: int) -> Seq<Seq<char>>
    decreases s.len() + 1 - ix,
    via params_from_decreases
{
    if ix < 0 || ix >= s.len() {
        Seq::empty()
    } else if s[ix] == ':' {
        seq![s.subrange(ix + 1, s.len() as int)]
    } else {
        seq![s.subrange(ix, first_space(s, ix))] + params_from(s, first_space(s, ix) + 1)
    }
}

#[via_fn]
proof fn params_from_decreases(s: Seq<char>, ix: int) {
    if 0 <= ix < s.len() {
        lemma_first_space(s, ix);
    }
}

/// Command word and parameters of `s`, read from position `ix`.
pub open spec fn scan_from(s: Seq<char>, prefix: Option<Seq<char>>, ix: int) -> MessageView {
    let c = first_space(s, ix);
    MessageView { prefix: prefix, command: s.subrange(ix, c), params: params_from(s, c + 1) }
}

/// The parts of a line, or the reason why it has none.
pub open spec fn scan(line: Seq<char>) -> Result<MessageView, Seq<char>> {
    let s = strip_line_end(line);
    if s.len() == 0 {
        Err("empty message"@)
    } else if s[0] == ':' {
        let e = first_space(s, 0);
        if e == s.len() {
            Err("invalid prefix"@)
        } else {
            Ok(scan_from(s, Some(s.subrange(1, e)), e + 1))
        }
    } else {
        Ok(scan_from(s, None, 0))
    }
}

/// The command that a message stands for, or the reason why it stands for
/// none: a command with a fixed number of parameters got another number.
pub open spec fn interpret(m: MessageView) -> Result<CommandView, Seq<char>> {
    let n = m.params.len();
    if m.command == "NICK"@ {
        if n == 1 {
            Ok(CommandView::Nick(m.params[0]))
        } else {
            Err("NICK needs 1 parameter"@)
        }
    } else if m.command == "USER"@ {
        if n == 4 {
            Ok(
                CommandView::User(
                    UserView { user: m.params[0], mode: m.params[1], realname: m.params[3] },
                ),
            )
        } else {
            Err("USER needs 4 parameters"@)
        }
    } else if m.command == "QUIT"@ {
        if n == 0 {
            Ok(CommandView::Quit("Client Quit"@))
        } else if n == 1 {
            Ok(CommandView::Quit(m.params[0]))
        } else {
            Err("Quit needs at most one parameter"@)
        }
    } else if m.command == "PRIVMSG"@ {
        if n == 2 {
            Ok(CommandView::Privmsg(m.params[0], m.params[1]))
        } else {
            Err("PRIVMSG needs 2 parameters"@)
        }
    } else if m.command == "NOTICE"@ {
        if n == 2 {
            Ok(CommandView::Notice(m.params[0], m.params[1]))
        } else {
            Err("NOTICE needs 2 parameters"@)
        }
    } else if m.command == "PING"@ {
        Ok(CommandView::Ping)
    } else if m.command == "PONG"@ {
        Ok(CommandView::Pong)
    } else if m.command == "MOTD"@ {
        Ok(CommandView::Motd)
    } else if m.command == "LUSERS"@ {
        Ok(CommandView::Lusers)
    } else if m.command == "WHOIS"@ {
        if n == 1 {
            Ok(CommandView::Whois(m.params[0]))
        } else {
            Err("WHOIS needs 1 parameter"@)
        }
    } else {
        Ok(CommandView::Unknown(m.command))
    }
}

/// The command that a line stands for, or its parse error.
pub open spec fn parse(line: Seq<char>) -> Result<CommandView, Seq<char>> {
    match scan(line) {
        Ok(m) => interpret(m),
        Err(e) => Err(e),
    }
}

/// What `first_space` finds: no space before it, and a space at it unless
/// it is the end.
pub proof fn lemma_first_space(s: Seq<char>, from: int)
    requires
        0 <= from <= s.len(),
    ensures
        from <= first_space(s, from) <= s.len(),
        forall|j: int| from <= j < first_space(s, from) ==> s[j] != ' ',
        first_space(s, from) < s.len() ==> s[first_space(s, from)] == ' ',
    decreases s.len() - from,
{
    if from < s.len() && s[from] != ' ' {
        lemma_first_space(s, from + 1);
    }
}

/// A position with no space before it back to `from`, and a space at it
/// unless it is the end, is the one that `first_space` finds.
pub proof fn lemma_first_space_is(s: Seq<char>, from: int, e: int)
    requires
        0 <= from <= e <= s.len(),
        forall|j: int| from <= j < e ==> s[j] != ' ',
        e < s.len() ==> s[e] == ' ',
    ensures
        first_space(s, from) == e,
    decreases e - from,
{
    if from < e {
        lemma_first_space_is(s, from + 1, e);
    }
}

fn stripped_len(cs: &Vec<char>) -> (end: usize)
    ensures
        end <= cs.len(),
        cs@.take(end as int) == strip_line_end(cs@),
{
    let n = cs.len();
    let end = if n >= 2 && cs[n - 2] == '\r' && cs[n - 1] == '\n' {
        n - 2
    } else if n >= 1 && cs[n - 1] == '\n' {
        n - 1
    } else {
        n
    };
    assert(cs@.take(end as int) =~= strip_line_end(cs@));
    end
}

fn find_space(cs: &Vec<char>, from: usize, end: usize) -> (r: usize)
    requires
        from <= end <= cs.len(),
    ensures
        from <= r <= end,
        r == first_space(cs@.take(end as int), from as int),
{
    let ghost s = cs@.take(end as int);
    let mut i = from;
    while i < end && cs[i] != ' '
        invariant
            from <= i <= end <= cs.len(),
            s == cs@.take(end as int),
            first_space(s, from as int) == first_space(s, i as int),
        decreases end - i,
    {
        i = i + 1;
    }
    i
}

fn same_text(a: &String, word: &str) -> (r: bool)
    ensures
        r == (a@ == word@),
{
    let w = word.to_owned();
    *a == w
}

/// Cuts a line into prefix, command word and parameters.
pub fn parse_stream(stream: String) -> (r: Result<Message, &'static str>)
    ensures
        match scan(stream@) {
            Ok(m) => r is Ok && r->Ok_0@ == m,
            Err(e) => r is Err && r->Err_0@ == e,
        },
{
    let cs = chars_of(stream.as_str());
    let end = stripped_len(&cs);
    let ghost s = strip_line_end(stream@);
    if end == 0 {
        return Err("empty message");
    }
    let mut prefix: Option<String> = None;
    let mut ix: usize = 0;
    if cs[0] == ':' {
        let e = find_space(&cs, 0, end);
        if e == end {
            return Err("invalid prefix");
        }
        proof {
            lemma_first_space(s, 0);
        }
        let p = slice_of(stream.as_str(), 1, e);
        assert(p@ =~= s.subrange(1, e as int));
        prefix = Some(p);
        ix = e + 1;
    }
    let c = find_space(&cs, ix, end);
    let command = slice_of(stream.as_str(), ix, c);
    assert(command@ =~= s.subrange(ix as int, c as int));
    let mut params: Vec<String> = Vec::new();
    ix = if c < end {
        c + 1
    } else {
        end
    };
    let ghost all = params_from(s, c + 1);
    assert(texts(params@) =~= Seq::empty());
    assert(all =~= texts(params@) + params_from(s, ix as int));
    while ix < end
        invariant
            ix <= end <= cs.len(),
            cs@ == stream@,
            s == cs@.take(end as int),
            all =~= texts(params@) + params_from(s, ix as int),
        decreases end - ix,
    {
        let ghost before = texts(params@);
        let ghost rest = params_from(s, ix as int);
        if cs[ix] == ':' {
            let p = slice_of(stream.as_str(), ix + 1, end);
            assert(p@ =~= s.subrange(ix + 1, s.len() as int));
            params.push(p);
            assert(texts(params@) =~= before.push(p@));
            ix = end;
            assert(rest =~= seq![p@] + params_from(s, ix as int));
        } else {
            let e = find_space(&cs, ix, end);
            let p = slice_of(stream.as_str(), ix, e);
            assert(p@ =~= s.subrange(ix as int, e as int));
            params.push(p);
            assert(texts(params@) =~= before.push(p@));
            assert(params_from(s, end + 1) =~= params_from(s, end as int));
            ix = if e < end {
                e + 1
            } else {
                end
            };
            assert(rest =~= seq![p@] + params_from(s, ix as int));
        }
    }
    assert(all =~= texts(params@));
    Ok(Message { prefix: prefix, command: command, params: params })
}

/// Parses one line into a command.
///
/// A command word that the server does not know gives `Command::Unknown`;
/// a known one with the wrong number of parameters, an empty line, or a
/// prefix with nothing behind it gives the parse error.
pub fn parse_message(message: String) -> (r: Result<Command, &'static str>)
    ensures
        match parse(message@) {
            Ok(c) => r is Ok && r->Ok_0@ == c,
            Err(e) => r is Err && r->Err_0@ == e,
        },
{
    let this_message = match parse_stream(message) {
        Ok(m) => m,
        Err(e) => {
            return Err(e);
        },
    };
    let num_param = this_message.params.len();
    let ghost m = this_message@;
    assert(forall|i: int|
        0 <= i < num_param ==> #[trigger] this_message.params@[i]@ == m.params[i]);
    if same_text(&this_message.command, "NICK") {
        if num_param != 1 {
            Err("NICK needs 1 parameter")
        } else {
            Ok(Command::Nick(this_message.params[0].clone()))
        }
    } else if same_text(&this_message.command, "USER") {
        if num_param != 4 {
            Err("USER needs 4 parameters")
        } else {
            Ok(
                Command::User(
                    User::new(
                        this_message.params[0].clone(),
                        this_message.params[1].clone(),
                        this_message.params[3].clone(),
                    ),
                ),
            )
        }
    } else if same_text(&this_message.command, "QUIT") {
        if num_param == 0 {
            Ok(Command::Quit("Client Quit".to_owned()))
        } else if num_param == 1 {
            Ok(Command::Quit(this_message.params[0].clone()))
        } else {
            Err("Quit needs at most one parameter")
        }
    } else if same_text(&this_message.command, "PRIVMSG") {
        if num_param != 2 {
            Err("PRIVMSG needs 2 parameters")
        } else {
            Ok(
                Command::Privmsg(
                    this_message.params[0].clone(),
                    this_message.params[1].clone(),
                ),
            )
        }
    } else if same_text(&this_message.command, "NOTICE") {
        if num_param != 2 {
            Err("NOTICE needs 2 parameters")
        } else {
            Ok(
                Command::Notice(
                    this_message.params[0].clone(),
                    this_message.params[1].clone(),
                ),
            )
        }
    } else if same_text(&this_message.command, "PING") {
        Ok(Command::Ping)
    } else if same_text(&this_message.command, "PONG") {
        Ok(Command::Pong)
    } else if same_text(&this_message.command, "MOTD") {
        Ok(Command::Motd)
    } else if same_text(&this_message.command, "LUSERS") {
        Ok(Command::Lusers)
    } else if same_text(&this_message.command, "WHOIS") {
        if num_param != 1 {
            Err("WHOIS needs 1 parameter")
        } else {
            Ok(Command::Whois(this_message.params[0].clone()))
        }
    } else {
        Ok(Command::Unknown(this_message.command))
    }
}

} // verus!
