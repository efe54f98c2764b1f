//! The lines that the server writes to a client: the numeric replies, the
//! closing `ERROR`, `PONG`, and the line that carries a message from one
//! client to another.
//!
//! Each line is stated as a sequence of characters, and built by a
//! function of the same wording. In all of them `srv` is the server's own
//! address as text, and `nick` the nickname of the client written to.

use crate::text::{decimal, push_decimal};
use vstd::prelude::*;

verus! {

/// How a numeric reply begins: `:<srv> <code> <nick>`.
pub open spec fn head(srv: Seq<char>, code: Seq<char>, nick: Seq<char>) -> Seq<char> {
    ":"@ + srv + " "@ + code + " "@ + nick
}

/// 001
pub open spec fn welcome(srv: Seq<char>, nick: Seq<char>, user: Seq<char>, peer: Seq<char>) -> Seq<
    char,
> {
    head(srv, "001"@, nick) + " :Welcome to the Internet Relay Network "@ + nick + "!"@ + user
        + "@"@ + peer + "\r\n"@
}

/// 002
pub open spec fn yourhost(srv: Seq<char>, nick: Seq<char>) -> Seq<char> {
    head(srv, "002"@, nick) + " :Your host is "@ + srv + ", running version 0.1\r\n"@
}

/// 003
pub open spec fn created(srv: Seq<char>, nick: Seq<char>) -> Seq<char> {
    head(srv, "003"@, nick) + " :This server was created SOMEDATE\r\n"@
}

/// 004
pub open spec fn myinfo(srv: Seq<char>, nick: Seq<char>) -> Seq<char> {
    head(srv, "004"@, nick) + " "@ + srv + " 0.1 ao mtov\r\n"@
}

/// 251
pub open spec fn luserclient(srv: Seq<char>, nick: Seq<char>, users: nat) -> Seq<char> {
    head(srv, "251"@, nick) + " :There are "@ + decimal(users)
        + " users and 0 services on 1 servers\r\n"@
}

/// 252
pub open spec fn luserop(srv: Seq<char>, nick: Seq<char>) -> Seq<char> {
    head(srv, "252"@, nick) + " 0 :operator(s) online\r\n"@
}

/// 253
pub open spec fn luserunknown(srv: Seq<char>, nick: Seq<char>, unknown: nat) -> Seq<char> {
    head(srv, "253"@, nick) + " "@ + decimal(unknown) + " :unknown connection(s)\r\n"@
}

/// 254
pub open spec fn luserchannels(srv: Seq<char>, nick: Seq<char>) -> Seq<char> {
    head(srv, "254"@, nick) + " 0 :channels formed\r\n"@
}

/// 255
pub open spec fn luserme(srv: Seq<char>, nick: Seq<char>, clients: nat) -> Seq<char> {
    head(srv, "255"@, nick) + " :I have "@ + decimal(clients) + " clients and 1 servers\r\n"@
}

/// 311
pub open spec fn whoisuser(
    srv: Seq<char>,
    nick: Seq<char>,
    target: Seq<char>,
    user: Seq<char>,
    host: Seq<char>,
    realname: Seq<char>,
) -> Seq<char> {
    head(srv, "311"@, nick) + " "@ + target + " "@ + user + " "@ + host + " * :"@ + realname
        + "\r\n"@
}

/// 312
pub open spec fn whoisserver(srv: Seq<char>, nick: Seq<char>, target: Seq<char>, host: Seq<char>)
    -> Seq<char> {
    head(srv, "312"@, nick) + " "@ + target + " "@ + host + " :server info\r\n"@
}

/// 318
pub open spec fn endofwhois(srv: Seq<char>, nick: Seq<char>, target: Seq<char>) -> Seq<char> {
    head(srv, "318"@, nick) + " "@ + target + " :End of WHOIS list\r\n"@
}

/// 372
pub open spec fn motd(srv: Seq<char>, nick: Seq<char>, chunk: Seq<char>) -> Seq<char> {
    head(srv, "372"@, nick) + " :- "@ + chunk + "\r\n"@
}

/// 375
pub open spec fn motdstart(srv: Seq<char>, nick: Seq<char>) -> Seq<char> {
    head(srv, "375"@, nick) + " :- "@ + srv + " Message of the day -\r\n"@
}

/// 376
pub open spec fn endofmotd(srv: Seq<char>, nick: Seq<char>) -> Seq<char> {
    head(srv, "376"@, nick) + " :End of MOTD command\r\n"@
}

/// 401
pub open spec fn nosuchnick(srv: Seq<char>, nick: Seq<char>, target: Seq<char>) -> Seq<char> {
    head(srv, "401"@, nick) + " "@ + target + " :No such nick/channel\r\n"@
}

/// 421
pub open spec fn unknowncommand(srv: Seq<char>, nick: Seq<char>, command: Seq<char>) -> Seq<
    char,
> {
    head(srv, "421"@, nick) + " "@ + command + " :Unknown command\r\n"@
}

/// 422
pub open spec fn nomotd(srv: Seq<char>, nick: Seq<char>) -> Seq<char> {
    head(srv, "422"@, nick) + " :MOTD File is missing\r\n"@
}

/// 433. It is written to a client that may have no nickname yet, so `*`
/// stands where the client's nickname would; `wanted` is the nickname
/// that was refused.
pub open spec fn nicknameinuse(srv: Seq<char>, wanted: Seq<char>) -> Seq<char> {
    head(srv, "433"@, "*"@) + " "@ + wanted + " :Nickname is already in use\r\n"@
}

/// The last line a client gets.
pub open spec fn closing_link(peer: Seq<char>, message: Seq<char>) -> Seq<char> {
    "ERROR :Closing Link: "@ + peer + " ("@ + message + ")\r\n"@
}

/// The answer to `PING`.
pub open spec fn pong(srv: Seq<char>) -> Seq<char> {
    "PONG "@ + srv + "\r\n"@
}

/// A message on its way from one client to another, as it is put into
/// the receiver's mailbox: `:<nick>!<user>@<srv> <verb> <target> :<text>`,
/// without line terminator.
pub open spec fn relayed(
    nick: Seq<char>,
    user: Seq<char>,
    srv: Seq<char>,
    verb: Seq<char>,
    target: Seq<char>,
    text: Seq<char>,
) -> Seq<char> {
    ":"@ + nick + "!"@ + user + "@"@ + srv + " "@ + verb + " "@ + target + " :"@ + text
}

/// A line from the mailbox as it is written to the socket.
pub open spec fn delivered(line: Seq<char>) -> Seq<char> {
    line + "\r\n"@
}

fn begin(srv: &str, code: &str, nick: &str) -> (r: String)
    ensures
        r@ == head(srv@, code@, nick@),
{
    let mut r = String::new();
    r.append(":");
    r.append(srv);
    r.append(" ");
    r.append(code);
    r.append(" ");
    r.append(nick);
    assert(r@ =~= head(srv@, code@, nick@));
    r
}

/// Builds 001.
pub fn rpl_welcome(srv: &str, nick: &str, user: &str, peer: &str) -> (r: String)
    ensures
        r@ == welcome(srv@, nick@, user@, peer@),
{
    let mut r = begin(srv, "001", nick);
    r.append(" :Welcome to the Internet Relay Network ");
    r.append(nick);
    r.append("!");
    r.append(user);
    r.append("@");
    r.append(peer);
    r.append("\r\n");
    r
}

/// Builds 002.
pub fn rpl_yourhost(srv: &str, nick: &str) -> (r: String)
    ensures
        r@ == yourhost(srv@, nick@),
{
    let mut r = begin(srv, "002", nick);
    r.append(" :Your host is ");
    r.append(srv);
    r.append(", running version 0.1\r\n");
    r
}

/// Builds 003.
pub fn rpl_created(srv: &str, nick: &str) -> (r: String)
    ensures
        r@ == created(srv@, nick@),
{
    let mut r = begin(srv, "003", nick);
    r.append(" :This server was created SOMEDATE\r\n");
    r
}

/// Builds 004.
pub fn rpl_myinfo(srv: &str, nick: &str) -> (r: String)
    ensures
        r@ == myinfo(srv@, nick@),
{
    let mut r = begin(srv, "004", nick);
    r.append(" ");
    r.append(srv);
    r.append(" 0.1 ao mtov\r\n");
    r
}

/// Builds 251.
pub fn rpl_luserclient(srv: &str, nick: &str, users: usize) -> (r: String)
    ensures
        r@ == luserclient(srv@, nick@, users as nat),
{
    let mut r = begin(srv, "251", nick);
    r.append(" :There are ");
    push_decimal(&mut r, users);
    r.append(" users and 0 services on 1 servers\r\n");
    r
}

/// Builds 252.
pub fn rpl_luserop(srv: &str, nick: &str) -> (r: String)
    ensures
        r@ == luserop(srv@, nick@),
{
    let mut r = begin(srv, "252", nick);
    r.append(" 0 :operator(s) online\r\n");
    r
}

/// Builds 253.
pub fn rpl_luserunknown(srv: &str, nick: &str, unknown: usize) -> (r: String)
    ensures
        r@ == luserunknown(srv@, nick@, unknown as nat),
{
    let mut r = begin(srv, "253", nick);
    r.append(" ");
    push_decimal(&mut r, unknown);
    r.append(" :unknown connection(s)\r\n");
    r
}

/// Builds 254.
pub fn rpl_luserchannels(srv: &str, nick: &str) -> (r: String)
    ensures
        r@ == luserchannels(srv@, nick@),
{
    let mut r = begin(srv, "254", nick);
    r.append(" 0 :channels formed\r\n");
    r
}

/// Builds 255.
pub fn rpl_luserme(srv: &str, nick: &str, clients: usize) -> (r: String)
    ensures
        r@ == luserme(srv@, nick@, clients as nat),
{
    let mut r = begin(srv, "255", nick);
    r.append(" :I have ");
    push_decimal(&mut r, clients);
    r.append(" clients and 1 servers\r\n");
    r
}

/// Builds 311.
pub fn rpl_whoisuser(srv: &str, nick: &str, target: &str, user: &str, host: &str, realname: &str)
    -> (r: String)
    ensures
        r@ == whoisuser(srv@, nick@, target@, user@, host@, realname@),
{
    let mut r = begin(srv, "311", nick);
    r.append(" ");
    r.append(target);
    r.append(" ");
    r.append(user);
    r.append(" ");
    r.append(host);
    r.append(" * :");
    r.append(realname);
    r.append("\r\n");
    r
}

/// Builds 312.
pub fn rpl_whoisserver(srv: &str, nick: &str, target: &str, host: &str) -> (r: String)
    ensures
        r@ == whoisserver(srv@, nick@, target@, host@),
{
    let mut r = begin(srv, "312", nick);
    r.append(" ");
    r.append(target);
    r.append(" ");
    r.append(host);
    r.append(" :server info\r\n");
    r
}

/// Builds 318.
pub fn rpl_endofwhois(srv: &str, nick: &str, target: &str) -> (r: String)
    ensures
        r@ == endofwhois(srv@, nick@, target@),
{
    let mut r = begin(srv, "318", nick);
    r.append(" ");
    r.append(target);
    r.append(" :End of WHOIS list\r\n");
    r
}

/// Builds 372.
pub fn rpl_motd(srv: &str, nick: &str, chunk: &str) -> (r: String)
    ensures
        r@ == motd(srv@, nick@, chunk@),
{
    let mut r = begin(srv, "372", nick);
    r.append(" :- ");
    r.append(chunk);
    r.append("\r\n");
    r
}

/// Builds 375.
pub fn rpl_motd_start(srv: &str, nick: &str) -> (r: String)
    ensures
        r@ == motdstart(srv@, nick@),
{
    let mut r = begin(srv, "375", nick);
    r.append(" :- ");
    r.append(srv);
    r.append(" Message of the day -\r\n");
    r
}

/// Builds 376.
pub fn rpl_motd_end(srv: &str, nick: &str) -> (r: String)
    ensures
        r@ == endofmotd(srv@, nick@),
{
    let mut r = begin(srv, "376", nick);
    r.append(" :End of MOTD command\r\n");
    r
}

/// Builds 401.
pub fn err_nosuchnick(srv: &str, nick: &str, target: &str) -> (r: String)
    ensures
        r@ == nosuchnick(srv@, nick@, target@),
{
    let mut r = begin(srv, "401", nick);
    r.append(" ");
    r.append(target);
    r.append(" :No such nick/channel\r\n");
    r
}

/// Builds 421.
pub fn err_unknowncommand(srv: &str, nick: &str, command: &str) -> (r: String)
    ensures
        r@ == unknowncommand(srv@, nick@, command@),
{
    let mut r = begin(srv, "421", nick);
    r.append(" ");
    r.append(command);
    r.append(" :Unknown command\r\n");
    r
}

/// Builds 422.
pub fn err_nomotd(srv: &str, nick: &str) -> (r: String)
    ensures
        r@ == nomotd(srv@, nick@),
{
    let mut r = begin(srv, "422", nick);
    r.append(" :MOTD File is missing\r\n");
    r
}

/// Builds 433.
pub fn err_nicknameinuse(srv: &str, wanted: &str) -> (r: String)
    ensures
        r@ == nicknameinuse(srv@, wanted@),
{
    let mut r = begin(srv, "433", "*");
    r.append(" ");
    r.append(wanted);
    r.append(" :Nickname is already in use\r\n");
    r
}

/// Builds the last line a client gets.
pub fn rpl_quit(peer: &str, message: &str) -> (r: String)
    ensures
        r@ == closing_link(peer@, message@),
{
    let mut r = String::new();
    r.append("ERROR :Closing Link: ");
    r.append(peer);
    r.append(" (");
    r.append(message);
    r.append(")\r\n");
    assert(r@ =~= closing_link(peer@, message@));
    r
}

/// Builds the answer to `PING`.
pub fn rpl_pong(srv: &str) -> (r: String)
    ensures
        r@ == pong(srv@),
{
    let mut r = String::new();
    r.append("PONG ");
    r.append(srv);
    r.append("\r\n");
    assert(r@ =~= pong(srv@));
    r
}

/// Builds the line that carries a message to its receiver.
pub fn relay_line(nick: &str, user: &str, srv: &str, verb: &str, target: &str, text: &str) -> (r:
    String)
    ensures
        r@ == relayed(nick@, user@, srv@, verb@, target@, text@),
{
    let mut r = String::new();
    r.append(":");
    r.append(nick);
    r.append("!");
    r.append(user);
    r.append("@");
    r.append(srv);
    r.append(" ");
    r.append(verb);
    r.append(" ");
    r.append(target);
    r.append(" :");
    r.append(text);
    assert(r@ =~= relayed(nick@, user@, srv@, verb@, target@, text@));
    r
}

/// Puts the line terminator behind a line from the mailbox.
pub fn deliver_line(line: &str) -> (r: String)
    ensures
        r@ == delivered(line@),
{
    let mut r = String::new();
    r.append(line);
    r.append("\r\n");
    assert(r@ =~= delivered(line@));
    r
}

} // verus!
