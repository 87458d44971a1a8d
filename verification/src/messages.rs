//! The command side of the wire protocol: one line of text in, one typed
//! command out, plus the textual replies the engine sends back.
//!
//! The grammar is modelled over `Seq<char>`: a line is split into
//! whitespace-separated tokens, the first token is the verb (matched
//! case-insensitively against the fixed verb set), and the second token, where
//! a verb takes one, is its argument. Address arguments keep their casing
//! verbatim.

use vstd::prelude::*;

verus! {

// ---------------------------------------------------------------------------
// Character-level model
// ---------------------------------------------------------------------------

/// Whitespace that separates tokens on a command line.
pub open spec fn is_space_c(c: char) -> bool {
    c == ' ' || c == '\t' || c == '\r' || c == '\n'
}

/// The Unicode scalar of `c`, with an ASCII lower-case letter folded to its
/// upper-case counterpart. Verbs are compared through this, so only ASCII
/// casing is folded; addresses are never passed through it.
pub open spec fn upper_u(c: char) -> int {
    let u = c as u32;
    if 97 <= u && u <= 122 {
        u - 32
    } else {
        u as int
    }
}

/// Case-insensitive equality of two character sequences (ASCII folding).
pub open spec fn ci_eq(a: Seq<char>, b: Seq<char>) -> bool {
    a.len() == b.len() && forall|i: int| 0 <= i < a.len() ==> upper_u(a[i]) == upper_u(b[i])
}

/// Index of the first non-whitespace character at or after `i`, or `s.len()`.
pub open spec fn skip_ws(s: Seq<char>, i: int) -> int
    decreases s.len() - i,
{
    if 0 <= i < s.len() && is_space_c(s[i]) {
        skip_ws(s, i + 1)
    } else {
        i
    }
}

/// Index of the first whitespace character at or after `i`, or `s.len()`.
pub open spec fn scan_tok(s: Seq<char>, i: int) -> int
    decreases s.len() - i,
{
    if 0 <= i < s.len() && !is_space_c(s[i]) {
        scan_tok(s, i + 1)
    } else {
        i
    }
}

/// Index of the first occurrence of `c` at or after `i`, or `s.len()`.
pub open spec fn find_from(s: Seq<char>, i: int, c: char) -> int
    decreases s.len() - i,
{
    if 0 <= i < s.len() {
        if s[i] == c {
            i
        } else {
            find_from(s, i + 1, c)
        }
    } else {
        i
    }
}

// ---------------------------------------------------------------------------
// Token structure of a line
// ---------------------------------------------------------------------------

/// Start of the first token.
pub open spec fn tok0_start(s: Seq<char>) -> int {
    skip_ws(s, 0)
}

/// End (exclusive) of the first token.
pub open spec fn tok0_end(s: Seq<char>) -> int {
    scan_tok(s, tok0_start(s))
}

/// Start of the second token.
pub open spec fn tok1_start(s: Seq<char>) -> int {
    skip_ws(s, tok0_end(s))
}

/// End (exclusive) of the second token.
pub open spec fn tok1_end(s: Seq<char>) -> int {
    scan_tok(s, tok1_start(s))
}

/// The verb: the first whitespace-separated token, if any.
pub open spec fn first_token(s: Seq<char>) -> Option<Seq<char>> {
    if tok0_start(s) < s.len() {
        Some(s.subrange(tok0_start(s), tok0_end(s)))
    } else {
        None
    }
}

/// The argument: the second whitespace-separated token, if any.
pub open spec fn second_token(s: Seq<char>) -> Option<Seq<char>> {
    if tok0_start(s) < s.len() && tok1_start(s) < s.len() {
        Some(s.subrange(tok1_start(s), tok1_end(s)))
    } else {
        None
    }
}

// ---------------------------------------------------------------------------
// The command grammar
// ---------------------------------------------------------------------------

/// The mathematical value of a parsed command.
#[verifier::ext_equal]
pub ghost enum CmdModel {
    Helo { fqdn: Seq<char> },
    Ehlo { fqdn: Seq<char> },
    MailFrom { email: Seq<char> },
    RcptTo { email: Seq<char> },
    Data,
    Help,
    NoOp,
    Rset,
    Quit,
}

/// The address inside an argument token: the characters strictly between the
/// first `<` and the first `>`, provided both occur, in that order, and the
/// span between them is non-empty.
pub open spec fn addr_in(arg: Seq<char>) -> Option<Seq<char>> {
    let lt = find_from(arg, 0, '<');
    let gt = find_from(arg, 0, '>');
    if lt < arg.len() && gt < arg.len() && lt + 1 < gt {
        Some(arg.subrange(lt + 1, gt))
    } else {
        None
    }
}

/// Whether `arg` begins with `p`, compared case-insensitively.
pub open spec fn has_ci_prefix(arg: Seq<char>, p: Seq<char>) -> bool {
    arg.len() >= p.len() && ci_eq(arg.subrange(0, p.len() as int), p)
}

/// What a verb and an optional argument token parse to.
pub open spec fn parse_tokens(verb: Seq<char>, arg: Option<Seq<char>>) -> Option<CmdModel> {
    if ci_eq(verb, seq!['H', 'E', 'L', 'O']) {
        match arg {
            Some(f) => Some(CmdModel::Helo { fqdn: f }),
            None => None,
        }
    } else if ci_eq(verb, seq!['E', 'H', 'L', 'O']) {
        match arg {
            Some(f) => Some(CmdModel::Ehlo { fqdn: f }),
            None => None,
        }
    } else if ci_eq(verb, seq!['M', 'A', 'I', 'L']) {
        match arg {
            Some(a) => if has_ci_prefix(a, seq!['F', 'R', 'O', 'M', ':']) {
                match addr_in(a) {
                    Some(e) => Some(CmdModel::MailFrom { email: e }),
                    None => None,
                }
            } else {
                None
            },
            None => None,
        }
    } else if ci_eq(verb, seq!['R', 'C', 'P', 'T']) {
        match arg {
            Some(a) => if has_ci_prefix(a, seq!['T', 'O', ':']) {
                match addr_in(a) {
                    Some(e) => Some(CmdModel::RcptTo { email: e }),
                    None => None,
                }
            } else {
                None
            },
            None => None,
        }
    } else if ci_eq(verb, seq!['D', 'A', 'T', 'A']) {
        Some(CmdModel::Data)
    } else if ci_eq(verb, seq!['H', 'E', 'L', 'P']) {
        Some(CmdModel::Help)
    } else if ci_eq(verb, seq!['N', 'O', 'O', 'P']) {
        Some(CmdModel::NoOp)
    } else if ci_eq(verb, seq!['R', 'S', 'E', 'T']) {
        Some(CmdModel::Rset)
    } else if ci_eq(verb, seq!['Q', 'U', 'I', 'T']) {
        Some(CmdModel::Quit)
    } else {
        None
    }
}

/// What one line of input parses to: a command, or nothing.
pub open spec fn parse_spec(s: Seq<char>) -> Option<CmdModel> {
    match first_token(s) {
        Some(v) => parse_tokens(v, second_token(s)),
        None => None,
    }
}

// ---------------------------------------------------------------------------
// Executable scanning helpers
// ---------------------------------------------------------------------------

/// Whether `c` separates tokens.
fn is_space_exec(c: char) -> (r: bool)
    ensures
        r == is_space_c(c),
{
    c == ' ' || c == '\t' || c == '\r' || c == '\n'
}

/// Whether two characters are equal up to ASCII case.
fn eq_ci_char(a: char, b: char) -> (r: bool)
    ensures
        r == (upper_u(a) == upper_u(b)),
{
    let ua = a as u32;
    let ub = b as u32;
    let fa = if 97 <= ua && ua <= 122 {
        ua - 32
    } else {
        ua
    };
    let fb = if 97 <= ub && ub <= 122 {
        ub - 32
    } else {
        ub
    };
    fa == fb
}

/// First non-whitespace position at or after `from`.
fn skip_ws_exec(s: &str, from: usize, n: usize) -> (r: usize)
    requires
        n == s@.len(),
        from <= n,
    ensures
        r == skip_ws(s@, from as int),
        from <= r <= n,
{
    let mut i = from;
    loop
        invariant
            n == s@.len(),
            from <= i <= n,
            skip_ws(s@, from as int) == skip_ws(s@, i as int),
        ensures
            i == skip_ws(s@, from as int),
            from <= i <= n,
        decreases n - i,
    {
        if i >= n {
            break ;
        }
        let c = s.get_char(i);
        if !is_space_exec(c) {
            break ;
        }
        proof {
            assert(skip_ws(s@, i as int) == skip_ws(s@, i + 1));
        }
        i = i + 1;
    }
    i
}

/// First whitespace position at or after `from`.
fn scan_tok_exec(s: &str, from: usize, n: usize) -> (r: usize)
    requires
        n == s@.len(),
        from <= n,
    ensures
        r == scan_tok(s@, from as int),
        from <= r <= n,
{
    let mut i = from;
    loop
        invariant
            n == s@.len(),
            from <= i <= n,
            scan_tok(s@, from as int) == scan_tok(s@, i as int),
        ensures
            i == scan_tok(s@, from as int),
            from <= i <= n,
        decreases n - i,
    {
        if i >= n {
            break ;
        }
        let c = s.get_char(i);
        if is_space_exec(c) {
            break ;
        }
        proof {
            assert(scan_tok(s@, i as int) == scan_tok(s@, i + 1));
        }
        i = i + 1;
    }
    i
}

/// First occurrence of `target` in `s`, or `s`'s length.
fn find_exec(s: &str, n: usize, target: char) -> (r: usize)
    requires
        n == s@.len(),
    ensures
        r == find_from(s@, 0, target),
        r <= n,
{
    let mut i: usize = 0;
    loop
        invariant
            n == s@.len(),
            i <= n,
            find_from(s@, 0, target) == find_from(s@, i as int, target),
        ensures
            i == find_from(s@, 0, target),
            i <= n,
        decreases n - i,
    {
        if i >= n {
            break ;
        }
        let c = s.get_char(i);
        if c == target {
            break ;
        }
        proof {
            assert(find_from(s@, i as int, target) == find_from(s@, i + 1, target));
        }
        i = i + 1;
    }
    i
}

/// Whether the characters of `s` in `[a, b)` equal `w` up to ASCII case.
fn range_ci_eq(s: &str, a: usize, b: usize, w: &str) -> (r: bool)
    requires
        a <= b <= s@.len(),
    ensures
        r == ci_eq(s@.subrange(a as int, b as int), w@),
{
    let wl = w.unicode_len();
    if b - a != wl {
        return false;
    }
    let ghost sub = s@.subrange(a as int, b as int);
    let mut i: usize = 0;
    while i < wl
        invariant
            a <= b <= s@.len(),
            b - a == wl,
            wl == w@.len(),
            i <= wl,
            sub == s@.subrange(a as int, b as int),
            forall|j: int| 0 <= j < i ==> upper_u(sub[j]) == upper_u(w@[j]),
        decreases wl - i,
    {
        let c1 = s.get_char(a + i);
        let c2 = w.get_char(i);
        if !eq_ci_char(c1, c2) {
            proof {
                assert(sub[i as int] == s@[a + i]);
                assert(!ci_eq(sub, w@));
            }
            return false;
        }
        i = i + 1;
    }
    true
}

// ---------------------------------------------------------------------------
// The executable command type and parser
// ---------------------------------------------------------------------------

/// One parsed protocol command.
#[derive(Debug, PartialEq, Eq, Clone)]
pub enum Command {
    Helo { fqdn: String },
    Ehlo { fqdn: String },
    MailFrom { email: String },
    RcptTo { email: String },
    Data,
    Help,
    NoOp,
    Rset,
    Quit,
}

impl View for Command {
    type V = CmdModel;

    open spec fn view(&self) -> CmdModel {
        match self {
            Command::Helo { fqdn } => CmdModel::Helo { fqdn: fqdn@ },
            Command::Ehlo { fqdn } => CmdModel::Ehlo { fqdn: fqdn@ },
            Command::MailFrom { email } => CmdModel::MailFrom { email: email@ },
            Command::RcptTo { email } => CmdModel::RcptTo { email: email@ },
            Command::Data => CmdModel::Data,
            Command::Help => CmdModel::Help,
            Command::NoOp => CmdModel::NoOp,
            Command::Rset => CmdModel::Rset,
            Command::Quit => CmdModel::Quit,
        }
    }
}

/// The model of an optional command.
pub open spec fn opt_cmd_view(r: Option<Command>) -> Option<CmdModel> {
    match r {
        Some(c) => Some(c@),
        None => None,
    }
}

impl Command {
    /// Parse one line of input into a command, or report that it is
    /// unparseable. The verb and the `FROM:`/`TO:` keywords are matched
    /// case-insensitively; an address keeps its casing verbatim.
    pub fn from_smtp_message(msg: &str) -> (r: Option<Command>)
        ensures
            opt_cmd_view(r) == parse_spec(msg@),
    {
        proof {
            reveal_strlit("HELO");
            reveal_strlit("EHLO");
            reveal_strlit("MAIL");
            reveal_strlit("RCPT");
            reveal_strlit("DATA");
            reveal_strlit("HELP");
            reveal_strlit("NOOP");
            reveal_strlit("RSET");
            reveal_strlit("QUIT");
            reveal_strlit("FROM:");
            reveal_strlit("TO:");
            assert("HELO"@ =~= seq!['H', 'E', 'L', 'O']);
            assert("EHLO"@ =~= seq!['E', 'H', 'L', 'O']);
            assert("MAIL"@ =~= seq!['M', 'A', 'I', 'L']);
            assert("RCPT"@ =~= seq!['R', 'C', 'P', 'T']);
            assert("DATA"@ =~= seq!['D', 'A', 'T', 'A']);
            assert("HELP"@ =~= seq!['H', 'E', 'L', 'P']);
            assert("NOOP"@ =~= seq!['N', 'O', 'O', 'P']);
            assert("RSET"@ =~= seq!['R', 'S', 'E', 'T']);
            assert("QUIT"@ =~= seq!['Q', 'U', 'I', 'T']);
            assert("FROM:"@ =~= seq!['F', 'R', 'O', 'M', ':']);
            assert("TO:"@ =~= seq!['T', 'O', ':']);
        }
        let n = msg.unicode_len();
        let a = skip_ws_exec(msg, 0, n);
        if a >= n {
            return None;
        }
        let b = scan_tok_exec(msg, a, n);
        let c = skip_ws_exec(msg, b, n);
        let ghost verb = msg@.subrange(a as int, b as int);
        if range_ci_eq(msg, a, b, "HELO") {
            if c >= n {
                return None;
            }
            let d = scan_tok_exec(msg, c, n);
            let f = msg.substring_char(c, d);
            Some(Command::Helo { fqdn: String::from_str(f) })
        } else if range_ci_eq(msg, a, b, "EHLO") {
            if c >= n {
                return None;
            }
            let d = scan_tok_exec(msg, c, n);
            let f = msg.substring_char(c, d);
            Some(Command::Ehlo { fqdn: String::from_str(f) })
        } else if range_ci_eq(msg, a, b, "MAIL") {
            if c >= n {
                return None;
            }
            let d = scan_tok_exec(msg, c, n);
            let arg = msg.substring_char(c, d);
            let al = arg.unicode_len();
            if al < 5 || !range_ci_eq(arg, 0, 5, "FROM:") {
                return None;
            }
            match addr_in_exec(arg, al) {
                Some(e) => Some(Command::MailFrom { email: e }),
                None => None,
            }
        } else if range_ci_eq(msg, a, b, "RCPT") {
            if c >= n {
                return None;
            }
            let d = scan_tok_exec(msg, c, n);
            let arg = msg.substring_char(c, d);
            let al = arg.unicode_len();
            if al < 3 || !range_ci_eq(arg, 0, 3, "TO:") {
                return None;
            }
            match addr_in_exec(arg, al) {
                Some(e) => Some(Command::RcptTo { email: e }),
                None => None,
            }
        } else if range_ci_eq(msg, a, b, "DATA") {
            Some(Command::Data)
        } else if range_ci_eq(msg, a, b, "HELP") {
            Some(Command::Help)
        } else if range_ci_eq(msg, a, b, "NOOP") {
            Some(Command::NoOp)
        } else if range_ci_eq(msg, a, b, "RSET") {
            Some(Command::Rset)
        } else if range_ci_eq(msg, a, b, "QUIT") {
            Some(Command::Quit)
        } else {
            None
        }
    }
}

/// Extract the address between the first `<` and the first `>` of `arg`.
fn addr_in_exec(arg: &str, al: usize) -> (r: Option<String>)
    requires
        al == arg@.len(),
    ensures
        match r {
            Some(e) => addr_in(arg@) == Some(e@),
            None => addr_in(arg@) is None,
        },
{
    let lt = find_exec(arg, al, '<');
    let gt = find_exec(arg, al, '>');
    if lt < al && gt < al && lt + 1 < gt {
        let e = arg.substring_char(lt + 1, gt);
        Some(String::from_str(e))
    } else {
        None
    }
}

// ---------------------------------------------------------------------------
// Replies
// ---------------------------------------------------------------------------

/// The mathematical value of a reply.
#[verifier::ext_equal]
pub ghost enum ReplyModel {
    Helo { fqdn: Seq<char> },
    Ehlo { fqdn: Seq<char> },
    Accepted,
    BadSequence,
    StartData,
    Help,
    Unrecognized,
    UserUnknown,
    TooLarge,
    Bye,
}

/// One reply the engine sends to the peer.
#[derive(Debug, PartialEq, Eq, Clone)]
pub enum Reply {
    /// Basic greeting acknowledgment, echoing the claimed identity.
    Helo { fqdn: String },
    /// Extended greeting acknowledgment, with the advertised extensions.
    Ehlo { fqdn: String },
    /// Success.
    Accepted,
    /// A command arrived out of order.
    BadSequence,
    /// Body collection begins.
    StartData,
    /// Informational help text.
    Help,
    /// The line did not parse as any command.
    Unrecognized,
    /// The recipient validator rejected the address.
    UserUnknown,
    /// Accepting the bytes would exceed the body bound.
    TooLarge,
    /// Closing acknowledgment.
    Bye,
}

impl View for Reply {
    type V = ReplyModel;

    open spec fn view(&self) -> ReplyModel {
        match self {
            Reply::Helo { fqdn } => ReplyModel::Helo { fqdn: fqdn@ },
            Reply::Ehlo { fqdn } => ReplyModel::Ehlo { fqdn: fqdn@ },
            Reply::Accepted => ReplyModel::Accepted,
            Reply::BadSequence => ReplyModel::BadSequence,
            Reply::StartData => ReplyModel::StartData,
            Reply::Help => ReplyModel::Help,
            Reply::Unrecognized => ReplyModel::Unrecognized,
            Reply::UserUnknown => ReplyModel::UserUnknown,
            Reply::TooLarge => ReplyModel::TooLarge,
            Reply::Bye => ReplyModel::Bye,
        }
    }
}

/// The text of the basic greeting acknowledgment.
pub open spec fn helo_response_spec(hostname: Seq<char>) -> Seq<char> {
    "250-smtp2.example.org ready when you are, "@ + hostname + "\n"@
}

/// The text of the extended greeting acknowledgment: the basic acknowledgment
/// followed by one line per advertised extension (the body-size bound and
/// UTF-8 addressing) and the closing status line.
pub open spec fn ehlo_response_spec(hostname: Seq<char>) -> Seq<char> {
    helo_response_spec(hostname) + "250-SIZE 65536\r\n"@ + "250-SMTPUTF8\r\n"@
        + "250 SMTPUTF8\r\n"@
}

/// The wire text of each reply.
pub open spec fn reply_wire(r: ReplyModel) -> Seq<char> {
    match r {
        ReplyModel::Helo { fqdn } => helo_response_spec(fqdn),
        ReplyModel::Ehlo { fqdn } => ehlo_response_spec(fqdn),
        ReplyModel::Accepted => "250 OK\n"@,
        ReplyModel::BadSequence => "503 Bad sequence of commands\n"@,
        ReplyModel::StartData => "354 End data with <CR><LF>.<CR><LF>\n"@,
        ReplyModel::Help => "214-go check out https://datatracker.ietf.org/doc/html/rfc5321\n"@,
        ReplyModel::Unrecognized => "500 Unrecognized command\n"@,
        ReplyModel::UserUnknown => "550 User unknown\n"@,
        ReplyModel::TooLarge => "552 Message too large\n"@,
        ReplyModel::Bye => "221 Bye\n"@,
    }
}

/// The banner sent on connect, before anything is read.
pub fn greeting() -> (r: String)
    ensures
        r@ == "220 smtp.example.org ESMTP VortexSMTP\n"@,
{
    String::from_str("220 smtp.example.org ESMTP VortexSMTP\n")
}

/// The basic greeting acknowledgment, echoing the claimed identity.
pub fn helo_response(hostname: &str) -> (r: String)
    ensures
        r@ == helo_response_spec(hostname@),
{
    let mut s = String::from_str("250-smtp2.example.org ready when you are, ");
    s.append(hostname);
    s.append("\n");
    s
}

impl Reply {
    /// Render this reply as the exact text written to the peer.
    pub fn wire(&self) -> (r: String)
        ensures
            r@ == reply_wire(self@),
    {
        match self {
            Reply::Helo { fqdn } => helo_response(fqdn.as_str()),
            Reply::Ehlo { fqdn } => {
                let mut s = helo_response(fqdn.as_str());
                s.append("250-SIZE 65536\r\n");
                s.append("250-SMTPUTF8\r\n");
                s.append("250 SMTPUTF8\r\n");
                s
            },
            Reply::Accepted => String::from_str("250 OK\n"),
            Reply::BadSequence => String::from_str("503 Bad sequence of commands\n"),
            Reply::StartData => String::from_str("354 End data with <CR><LF>.<CR><LF>\n"),
            Reply::Help => String::from_str(
                "214-go check out https://datatracker.ietf.org/doc/html/rfc5321\n",
            ),
            Reply::Unrecognized => String::from_str("500 Unrecognized command\n"),
            Reply::UserUnknown => String::from_str("550 User unknown\n"),
            Reply::TooLarge => String::from_str("552 Message too large\n"),
            Reply::Bye => String::from_str("221 Bye\n"),
        }
    }
}

// ---------------------------------------------------------------------------
// Bounds of the scanning functions
// ---------------------------------------------------------------------------

/// `skip_ws` never moves backwards, and stays within the sequence.
pub proof fn lemma_skip_ws_bounds(s: Seq<char>, i: int)
    requires
        0 <= i <= s.len(),
    ensures
        i <= skip_ws(s, i) <= s.len(),
    decreases s.len() - i,
{
    if i < s.len() && is_space_c(s[i]) {
        lemma_skip_ws_bounds(s, i + 1);
    }
}

/// `scan_tok` never moves backwards, and stays within the sequence.
pub proof fn lemma_scan_tok_bounds(s: Seq<char>, i: int)
    requires
        0 <= i <= s.len(),
    ensures
        i <= scan_tok(s, i) <= s.len(),
    decreases s.len() - i,
{
    if i < s.len() && !is_space_c(s[i]) {
        lemma_scan_tok_bounds(s, i + 1);
    }
}

/// `find_from` never moves backwards, and stays within the sequence.
pub proof fn lemma_find_from_bounds(s: Seq<char>, i: int, c: char)
    requires
        0 <= i <= s.len(),
    ensures
        i <= find_from(s, i, c) <= s.len(),
    decreases s.len() - i,
{
    if i < s.len() && s[i] != c {
        lemma_find_from_bounds(s, i + 1, c);
    }
}

// ---------------------------------------------------------------------------
// Laws of the parser
// ---------------------------------------------------------------------------

/// Case-insensitive equality is a congruence for matching against a fixed
/// word: two tokens that are equal up to case match the same words.
pub proof fn lemma_ci_eq_congruence(a: Seq<char>, b: Seq<char>, w: Seq<char>)
    requires
        ci_eq(a, b),
    ensures
        ci_eq(a, w) == ci_eq(b, w),
{
}

/// Verb matching is case-insensitive: two lines whose verbs are equal up to
/// ASCII case and whose argument tokens are identical parse to the same
/// command (or both fail to parse).
pub proof fn lemma_verb_case_insensitive(s: Seq<char>, t: Seq<char>)
    requires
        first_token(s) is Some,
        first_token(t) is Some,
        ci_eq(first_token(s)->0, first_token(t)->0),
        second_token(s) == second_token(t),
    ensures
        parse_spec(s) == parse_spec(t),
{
    let v1 = first_token(s)->0;
    let v2 = first_token(t)->0;
    lemma_ci_eq_congruence(v1, v2, seq!['H', 'E', 'L', 'O']);
    lemma_ci_eq_congruence(v1, v2, seq!['E', 'H', 'L', 'O']);
    lemma_ci_eq_congruence(v1, v2, seq!['M', 'A', 'I', 'L']);
    lemma_ci_eq_congruence(v1, v2, seq!['R', 'C', 'P', 'T']);
    lemma_ci_eq_congruence(v1, v2, seq!['D', 'A', 'T', 'A']);
    lemma_ci_eq_congruence(v1, v2, seq!['H', 'E', 'L', 'P']);
    lemma_ci_eq_congruence(v1, v2, seq!['N', 'O', 'O', 'P']);
    lemma_ci_eq_congruence(v1, v2, seq!['R', 'S', 'E', 'T']);
    lemma_ci_eq_congruence(v1, v2, seq!['Q', 'U', 'I', 'T']);
}

/// Address casing is preserved exactly: an address produced by the parser is
/// a verbatim contiguous substring of the input line.
pub proof fn lemma_address_verbatim(s: Seq<char>, email: Seq<char>)
    requires
        parse_spec(s) == Some(CmdModel::MailFrom { email }) || parse_spec(s) == Some(
            CmdModel::RcptTo { email },
        ),
    ensures
        exists|i: int, j: int| 0 <= i <= j <= s.len() && email == s.subrange(i, j),
{
    let a = second_token(s)->0;
    let c = tok1_start(s);
    let d = tok1_end(s);
    lemma_skip_ws_bounds(s, 0);
    lemma_scan_tok_bounds(s, tok0_start(s));
    lemma_skip_ws_bounds(s, tok0_end(s));
    lemma_scan_tok_bounds(s, c);
    let lt = find_from(a, 0, '<');
    let gt = find_from(a, 0, '>');
    lemma_find_from_bounds(a, 0, '<');
    lemma_find_from_bounds(a, 0, '>');
    assert(email == a.subrange(lt + 1, gt));
    assert(email =~= s.subrange(c + lt + 1, c + gt));
    assert(0 <= c + lt + 1 <= c + gt <= s.len() && email == s.subrange(c + lt + 1, c + gt));
}

// ---------------------------------------------------------------------------
// Line splitting
// ---------------------------------------------------------------------------

/// The line segments of `s` starting at `i`: the spans between newline
/// characters. A final span after the last newline is kept only if non-empty;
/// each newline itself is dropped.
pub open spec fn lines_from(s: Seq<char>, i: int) -> Seq<Seq<char>>
    decreases s.len() - i,
    via lines_from_dec
{
    if !(0 <= i < s.len()) {
        Seq::empty()
    } else {
        let j = find_from(s, i, '\n');
        if j >= s.len() {
            seq![s.subrange(i, s.len() as int)]
        } else {
            seq![s.subrange(i, j)] + lines_from(s, j + 1)
        }
    }
}

#[via_fn]
proof fn lines_from_dec(s: Seq<char>, i: int) {
    if 0 <= i < s.len() {
        lemma_find_from_bounds(s, i, '\n');
    }
}

/// The lines of `s`.
pub open spec fn lines_of(s: Seq<char>) -> Seq<Seq<char>> {
    lines_from(s, 0)
}

/// Split a chunk of decoded input into its lines, dropping the newline
/// terminators. A trailing fragment without a newline is returned as a line
/// of its own, as is an empty line between two newlines.
pub fn split_lines(text: &str) -> (r: Vec<String>)
    ensures
        r.deep_view() == lines_of(text@),
{
    let n = text.unicode_len();
    let mut out: Vec<String> = Vec::new();
    let mut i: usize = 0;
    loop
        invariant_except_break
            n == text@.len(),
            i <= n,
            lines_of(text@) =~= out.deep_view() + lines_from(text@, i as int),
        ensures
            out.deep_view() =~= lines_of(text@),
        decreases n - i,
    {
        if i >= n {
            break ;
        }
        let j = find_nl_exec(text, i, n);
        let line = text.substring_char(i, j);
        let ghost prev = out.deep_view();
        out.push(String::from_str(line));
        proof {
            assert(out.deep_view() =~= prev.push(line@));
        }
        if j >= n {
            proof {
                assert(lines_from(text@, i as int) =~= seq![line@]);
            }
            break ;
        }
        proof {
            assert(lines_from(text@, i as int) =~= seq![line@] + lines_from(text@, j + 1));
        }
        i = j + 1;
    }
    out
}

/// First newline at or after `from`.
fn find_nl_exec(s: &str, from: usize, n: usize) -> (r: usize)
    requires
        n == s@.len(),
        from <= n,
    ensures
        r == find_from(s@, from as int, '\n'),
        from <= r <= n,
{
    let mut i = from;
    loop
        invariant
            n == s@.len(),
            from <= i <= n,
            find_from(s@, from as int, '\n') == find_from(s@, i as int, '\n'),
        ensures
            i == find_from(s@, from as int, '\n'),
            from <= i <= n,
        decreases n - i,
    {
        if i >= n {
            break ;
        }
        let c = s.get_char(i);
        if c == '\n' {
            break ;
        }
        proof {
            assert(find_from(s@, i as int, '\n') == find_from(s@, i + 1, '\n'));
        }
        i = i + 1;
    }
    i
}

} // verus!
