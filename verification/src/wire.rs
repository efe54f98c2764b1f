//! Writing a command as a line of the wire protocol, and the law that
//! ties it to the parser: a well-formed command that is written and parsed
//! again is the same command.

use crate::parser::{
    first_space, interpret, lemma_first_space_is, params_from, parse, scan, scan_from,
    strip_line_end, Command, CommandView, MessageView,
};
use vstd::prelude::*;

verus! {

/// A word can stand as a command word or as a parameter in the middle of
/// a line: it is not empty, holds no space and does not start with `:`.
pub open spec fn is_word(w: Seq<char>) -> bool {
    &&& w.len() > 0
    &&& w[0] != ':'
    &&& forall|i: int| 0 <= i < w.len() ==> w[i] != ' '
}

/// The command words that the server knows.
pub open spec fn is_keyword(w: Seq<char>) -> bool {
    ||| w == "NICK"@
    ||| w == "USER"@
    ||| w == "QUIT"@
    ||| w == "PRIVMSG"@
    ||| w == "NOTICE"@
    ||| w == "PING"@
    ||| w == "PONG"@
    ||| w == "MOTD"@
    ||| w == "LUSERS"@
    ||| w == "WHOIS"@
}

/// The parameters of a line as they stand behind the command word: each
/// word after one space, and the last parameter, if there is one, after
/// ` :`.
pub open spec fn tail(middles: Seq<Seq<char>>, trailing: Option<Seq<char>>) -> Seq<char>
    decreases middles.len(),
{
    if middles.len() == 0 {
        match trailing {
            Some(t) => seq![' ', ':'] + t,
            None => Seq::empty(),
        }
    } else {
        seq![' '] + middles[0] + tail(middles.drop_first(), trailing)
    }
}

/// The parameters that `tail` writes, as the parser hands them back.
pub open spec fn all_params(middles: Seq<Seq<char>>, trailing: Option<Seq<char>>) -> Seq<
    Seq<char>,
> {
    match trailing {
        Some(t) => middles.push(t),
        None => middles,
    }
}

impl CommandView {
    /// The command word under which this command travels.
    pub open spec fn word(self) -> Seq<char> {
        match self {
            CommandView::Nick(_) => "NICK"@,
            CommandView::User(_) => "USER"@,
            CommandView::Quit(_) => "QUIT"@,
            CommandView::Privmsg(_, _) => "PRIVMSG"@,
            CommandView::Notice(_, _) => "NOTICE"@,
            CommandView::Ping => "PING"@,
            CommandView::Pong => "PONG"@,
            CommandView::Motd => "MOTD"@,
            CommandView::Lusers => "LUSERS"@,
            CommandView::Whois(_) => "WHOIS"@,
            CommandView::Unknown(c) => c,
        }
    }

    /// The parameters that are written as words.
    pub open spec fn middles(self) -> Seq<Seq<char>> {
        match self {
            CommandView::Nick(n) => seq![n],
            CommandView::User(u) => seq![u.user, u.mode, seq!['*']],
            CommandView::Privmsg(t, _) => seq![t],
            CommandView::Notice(t, _) => seq![t],
            CommandView::Whois(t) => seq![t],
            _ => Seq::empty(),
        }
    }

    /// The parameter that is written last, behind ` :`.
    pub open spec fn trailing(self) -> Option<Seq<char>> {
        match self {
            CommandView::User(u) => Some(u.realname),
            CommandView::Quit(m) => Some(m),
            CommandView::Privmsg(_, x) => Some(x),
            CommandView::Notice(_, x) => Some(x),
            _ => None,
        }
    }

    /// The command as a line, without the line terminator.
    pub open spec fn wire(self) -> Seq<char> {
        self.word() + tail(self.middles(), self.trailing())
    }

    /// A command that can be written as a line and read back: what is
    /// written as a word is a word, and an unknown command word is none
    /// that the server knows.
    pub open spec fn well_formed(self) -> bool {
        match self {
            CommandView::Nick(n) => is_word(n),
            CommandView::User(u) => is_word(u.user) && is_word(u.mode),
            CommandView::Privmsg(t, _) => is_word(t),
            CommandView::Notice(t, _) => is_word(t),
            CommandView::Whois(t) => is_word(t),
            CommandView::Unknown(c) => is_word(c) && !is_keyword(c),
            _ => true,
        }
    }
}

proof fn lemma_tail_starts_with_space(middles: Seq<Seq<char>>, trailing: Option<Seq<char>>)
    ensures
        tail(middles, trailing).len() > 0 ==> tail(middles, trailing)[0] == ' ',
{
}

/// The parser reads back the parameters that `tail` wrote.
pub proof fn lemma_params_of_tail(
    s: Seq<char>,
    ix: int,
    middles: Seq<Seq<char>>,
    trailing: Option<Seq<char>>,
)
    requires
        1 <= ix <= s.len() + 1,
        s.subrange(ix - 1, s.len() as int) == tail(middles, trailing),
        forall|i: int| 0 <= i < middles.len() ==> is_word(#[trigger] middles[i]),
    ensures
        params_from(s, ix) == all_params(middles, trailing),
    decreases middles.len(),
{
    let sub = s.subrange(ix - 1, s.len() as int);
    if middles.len() == 0 {
        match trailing {
            Some(t) => {
                assert(sub.len() == 2 + t.len());
                assert(s[ix] == sub[1]);
                assert(s.subrange(ix + 1, s.len() as int) =~= t) by {
                    assert forall|j: int| 0 <= j < t.len() implies s[ix + 1 + j] == t[j] by {
                        assert(s[ix + 1 + j] == sub[2 + j]);
                    }
                }
                assert(params_from(s, ix) =~= all_params(middles, trailing));
            },
            None => {
                assert(sub.len() == 0);
                assert(params_from(s, ix) =~= all_params(middles, trailing));
            },
        }
    } else {
        let m0 = middles[0];
        let rest = tail(middles.drop_first(), trailing);
        let e = ix + m0.len();
        assert(is_word(m0));
        assert(sub.len() == 1 + m0.len() + rest.len());
        assert forall|j: int| 0 <= j < m0.len() implies s[ix + j] == m0[j] by {
            assert(s[ix + j] == sub[1 + j]);
        }
        assert(s[ix] == m0[0]);
        assert forall|j: int| ix <= j < e implies s[j] != ' ' by {
            assert(s[ix + (j - ix)] == m0[j - ix]);
        }
        lemma_tail_starts_with_space(middles.drop_first(), trailing);
        if e < s.len() {
            assert(s[e] == sub[1 + m0.len() as int]);
            assert(s[e] == rest[0]);
        }
        lemma_first_space_is(s, ix, e);
        assert(s.subrange(ix, e) =~= m0);
        assert(s.subrange(e, s.len() as int) =~= rest) by {
            assert forall|j: int| 0 <= j < rest.len() implies s[e + j] == rest[j] by {
                assert(s[e + j] == sub[1 + m0.len() as int + j]);
            }
        }
        assert forall|i: int| 0 <= i < middles.drop_first().len() implies is_word(
            #[trigger] middles.drop_first()[i],
        ) by {
            assert(middles.drop_first()[i] == middles[i + 1]);
        }
        lemma_params_of_tail(s, e + 1, middles.drop_first(), trailing);
        assert(params_from(s, ix) == seq![m0] + params_from(s, e + 1));
        assert(seq![m0] + all_params(middles.drop_first(), trailing) =~= all_params(
            middles,
            trailing,
        ));
    }
}

/// A line made of a command word and a `tail` is cut into exactly that
/// word and those parameters.
pub proof fn lemma_scan_of_wire(
    word: Seq<char>,
    middles: Seq<Seq<char>>,
    trailing: Option<Seq<char>>,
)
    requires
        is_word(word),
        forall|i: int| 0 <= i < middles.len() ==> is_word(#[trigger] middles[i]),
    ensures
        scan(word + tail(middles, trailing) + "\r\n"@) == Ok::<MessageView, Seq<char>>(
            MessageView { prefix: None, command: word, params: all_params(middles, trailing) },
        ),
{
    reveal_strlit("\r\n");
    let s = word + tail(middles, trailing);
    let line = s + "\r\n"@;
    assert(strip_line_end(line) =~= s);
    assert(s[0] == word[0]);
    let e = word.len() as int;
    assert forall|j: int| 0 <= j < e implies s[j] != ' ' by {
        assert(s[j] == word[j]);
    }
    lemma_tail_starts_with_space(middles, trailing);
    if e < s.len() {
        assert(s[e] == tail(middles, trailing)[0]);
    }
    lemma_first_space_is(s, 0, e);
    assert(s.subrange(0, e) =~= word);
    assert(s.subrange(e, s.len() as int) =~= tail(middles, trailing));
    lemma_params_of_tail(s, e + 1, middles, trailing);
    assert(scan_from(s, None, 0) == (MessageView {
        prefix: None,
        command: word,
        params: all_params(middles, trailing),
    }));
}

/// The command words are words, and no two of them are the same.
pub proof fn lemma_keywords()
    ensures
        is_word("NICK"@),
        is_word("USER"@),
        is_word("QUIT"@),
        is_word("PRIVMSG"@),
        is_word("NOTICE"@),
        is_word("PING"@),
        is_word("PONG"@),
        is_word("MOTD"@),
        is_word("LUSERS"@),
        is_word("WHOIS"@),
        "NICK"@ != "USER"@,
        "NICK"@ != "QUIT"@,
        "NICK"@ != "PING"@,
        "NICK"@ != "PONG"@,
        "NICK"@ != "MOTD"@,
        "USER"@ != "QUIT"@,
        "USER"@ != "PING"@,
        "USER"@ != "PONG"@,
        "USER"@ != "MOTD"@,
        "QUIT"@ != "PING"@,
        "QUIT"@ != "PONG"@,
        "QUIT"@ != "MOTD"@,
        "PING"@ != "PONG"@,
        "PING"@ != "MOTD"@,
        "PONG"@ != "MOTD"@,
        "PRIVMSG"@.len() == 7,
        "NOTICE"@.len() == 6,
        "LUSERS"@.len() == 6,
        "NOTICE"@ != "LUSERS"@,
        "WHOIS"@.len() == 5,
        "NICK"@.len() == 4,
        "USER"@.len() == 4,
        "QUIT"@.len() == 4,
        "PING"@.len() == 4,
        "PONG"@.len() == 4,
        "MOTD"@.len() == 4,
{
    reveal_strlit("NICK");
    reveal_strlit("USER");
    reveal_strlit("QUIT");
    reveal_strlit("PRIVMSG");
    reveal_strlit("NOTICE");
    reveal_strlit("PING");
    reveal_strlit("PONG");
    reveal_strlit("MOTD");
    reveal_strlit("LUSERS");
    reveal_strlit("WHOIS");
    assert("NICK"@[0] != "USER"@[0]);
    assert("NICK"@[0] != "QUIT"@[0]);
    assert("NICK"@[0] != "PING"@[0]);
    assert("NICK"@[0] != "PONG"@[0]);
    assert("NICK"@[0] != "MOTD"@[0]);
    assert("USER"@[0] != "QUIT"@[0]);
    assert("USER"@[0] != "PING"@[0]);
    assert("USER"@[0] != "PONG"@[0]);
    assert("USER"@[0] != "MOTD"@[0]);
    assert("QUIT"@[0] != "PING"@[0]);
    assert("QUIT"@[0] != "PONG"@[0]);
    assert("QUIT"@[0] != "MOTD"@[0]);
    assert("PING"@[1] != "PONG"@[1]);
    assert("PING"@[0] != "MOTD"@[0]);
    assert("PONG"@[0] != "MOTD"@[0]);
    assert("NOTICE"@[0] != "LUSERS"@[0]);
}

/// Round trip: a well-formed command, written as a line with its
/// terminator and parsed again, is the command that was written.
pub proof fn lemma_parse_of_wire(c: CommandView)
    requires
        c.well_formed(),
    ensures
        parse(c.wire() + "\r\n"@) == Ok::<CommandView, Seq<char>>(c),
{
    lemma_keywords();
    assert(is_word(seq!['*']));
    assert(is_word(c.word()));
    assert forall|i: int| 0 <= i < c.middles().len() implies is_word(
        #[trigger] c.middles()[i],
    ) by {}
    lemma_scan_of_wire(c.word(), c.middles(), c.trailing());
    let m = MessageView {
        prefix: None,
        command: c.word(),
        params: all_params(c.middles(), c.trailing()),
    };
    assert(interpret(m) == Ok::<CommandView, Seq<char>>(c));
}

fn push_word(out: &mut String, w: &str)
    ensures
        final(out)@ == old(out)@ + seq![' '] + w@,
{
    proof {
        reveal_strlit(" ");
    }
    out.append(" ");
    out.append(w);
    assert(out@ =~= old(out)@ + seq![' '] + w@);
}

fn push_trailing(out: &mut String, t: &str)
    ensures
        final(out)@ == old(out)@ + seq![' ', ':'] + t@,
{
    proof {
        reveal_strlit(" :");
    }
    out.append(" :");
    out.append(t);
    assert(out@ =~= old(out)@ + seq![' ', ':'] + t@);
}

impl Command {
    /// The command as a line of the wire protocol, terminator included.
    pub fn to_line(&self) -> (line: String)
        ensures
            line@ == self@.wire() + "\r\n"@,
    {
        let ghost v = self@;
        let mut out = String::new();
        match self {
            Command::Nick(n) => {
                out.append("NICK");
                push_word(&mut out, n.as_str());
                assert(tail(v.middles(), v.trailing()) =~= seq![' '] + n@) by {
                    reveal_with_fuel(tail, 3);
                }
            },
            Command::User(u) => {
                proof {
                    reveal_strlit("*");
                }
                out.append("USER");
                push_word(&mut out, u.user.as_str());
                push_word(&mut out, u.mode.as_str());
                push_word(&mut out, "*");
                push_trailing(&mut out, u.realname.as_str());
                assert("*"@ =~= seq!['*']);
                assert(tail(v.middles(), v.trailing()) =~= seq![' '] + u.user@ + seq![' ']
                    + u.mode@ + seq![' '] + seq!['*'] + seq![' ', ':'] + u.realname@) by {
                    reveal_with_fuel(tail, 5);
                    let m = v.middles();
                    assert(m.drop_first() =~= seq![u.mode@, seq!['*']]);
                    assert(m.drop_first().drop_first() =~= seq![seq!['*']]);
                    assert(m.drop_first().drop_first().drop_first() =~= Seq::empty());
                }
            },
            Command::Quit(m) => {
                out.append("QUIT");
                push_trailing(&mut out, m.as_str());
            },
            Command::Privmsg(t, x) => {
                out.append("PRIVMSG");
                push_word(&mut out, t.as_str());
                push_trailing(&mut out, x.as_str());
                assert(tail(v.middles(), v.trailing()) =~= seq![' '] + t@ + seq![' ', ':'] + x@)
                    by {
                    reveal_with_fuel(tail, 3);
                }
            },
            Command::Notice(t, x) => {
                out.append("NOTICE");
                push_word(&mut out, t.as_str());
                push_trailing(&mut out, x.as_str());
                assert(tail(v.middles(), v.trailing()) =~= seq![' '] + t@ + seq![' ', ':'] + x@)
                    by {
                    reveal_with_fuel(tail, 3);
                }
            },
            Command::Ping => {
                out.append("PING");
            },
            Command::Pong => {
                out.append("PONG");
            },
            Command::Motd => {
                out.append("MOTD");
            },
            Command::Lusers => {
                out.append("LUSERS");
            },
            Command::Whois(t) => {
                out.append("WHOIS");
                push_word(&mut out, t.as_str());
                assert(tail(v.middles(), v.trailing()) =~= seq![' '] + t@) by {
                    reveal_with_fuel(tail, 3);
                }
            },
            Command::Unknown(c) => {
                out.append(c.as_str());
            },
        }
        assert(out@ =~= v.wire());
        out.append("\r\n");
        out
    }
}

} // verus!
