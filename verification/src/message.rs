//! Protocol messages: raw wire text paired with the command token that the
//! parser found in it, and the keep-alive reply transform.
use vstd::prelude::*;
use vstd::string::*;

verus! {

/// What the parser accepts is a function of the raw text alone; this names
/// the success of `pircolate`'s message parser on a given text.
pub uninterp spec fn parses(s: Seq<char>) -> bool;

/// The command token that `pircolate`'s parser finds in a raw text that it
/// accepts; a function of the text alone.
pub uninterp spec fn command_of(s: Seq<char>) -> Seq<char>;

/// The one raw text the parser must not be given: a lone `"@"`. On it the
/// parser's tag scanner steps past the end of the input and panics, so the
/// library rejects it before the parser ever sees it.
pub open spec fn is_lone_at(s: Seq<char>) -> bool {
    s == seq!['@']
}

/// Whether the keep-alive reply synthesized from this raw text parses back:
/// the transformed text is accepted by the parser (and is not the one text
/// the parser cannot be given).
pub open spec fn reply_parses(raw: Seq<char>) -> bool {
    !is_lone_at(ping_reply_text(raw)) && parses(ping_reply_text(raw))
}

/// The mathematical value of a message: its raw wire text and command token.
#[verifier::ext_equal]
pub struct MsgView {
    pub raw: Seq<char>,
    pub command: Seq<char>,
}

/// One parsed protocol message. Values exist only by way of [`parse_message`],
/// so the command token always is the one the parser found in the raw text.
#[derive(Clone, Debug)]
pub struct Message {
    raw: String,
    command: String,
}

impl View for Message {
    type V = MsgView;

    closed spec fn view(&self) -> MsgView {
        MsgView { raw: self.raw@, command: self.command@ }
    }
}

impl Message {
    /// A message is well formed when its text is one the parser accepts and
    /// its command token is the one the parser finds there.
    pub open spec fn wf(self) -> bool {
        parses(self@.raw) && self@.command == command_of(self@.raw)
    }

    /// The raw wire text this message was parsed from.
    pub fn raw_text(&self) -> (r: &str)
        ensures
            r@ == self@.raw,
    {
        self.raw.as_str()
    }

    /// The command token of this message.
    pub fn command_text(&self) -> (r: &str)
        ensures
            r@ == self@.command,
    {
        self.command.as_str()
    }

    /// Whether this message is a keep-alive request.
    pub fn is_ping(&self) -> (r: bool)
        ensures
            r == (self@.command == "PING"@),
    {
        let ping: String = String::from_str("PING");
        self.command == ping
    }
}

/// Relies on `pircolate::Message::try_from` (through `str::parse`): whether a
/// text is accepted depends on the text alone; on success the returned message
/// stores the input text unchanged (`raw_message`) and `raw_command` is the
/// slice of it that the parser marked as the command. The lone text `"@"` is
/// excluded: on it the parser's tag scanner indexes past the end of the input
/// instead of returning an error.
#[verifier::external_body]
pub(crate) fn parse_raw(raw: &str) -> (r: Result<Message, String>)
    requires
        !is_lone_at(raw@),
    ensures
        r is Ok <==> parses(raw@),
        r matches Ok(m) ==> m@.raw == raw@ && m@.command == command_of(raw@),
{
    match raw.parse::<pircolate::Message>() {
        Ok(m) => {
            let command = m.raw_command().to_owned();
            Ok(Message { raw: m.raw_message().to_owned(), command })
        }
        Err(e) => Err(format!("{}", e)),
    }
}

/// Parse a raw wire text into a [`Message`]; the error carries a description
/// of the failure. The lone text `"@"`, which the parser cannot take, is
/// rejected here with an error of the library's own.
pub fn parse_message(raw: &str) -> (r: Result<Message, String>)
    ensures
        r is Ok <==> (!is_lone_at(raw@) && parses(raw@)),
        r matches Ok(m) ==> m@.raw == raw@ && m@.command == command_of(raw@) && m.wf(),
{
    let n = raw.unicode_len();
    if n == 1 && raw.get_char(0) == '@' {
        proof {
            assert(raw@ =~= seq!['@']);
        }
        return Err(String::from_str("message is a lone '@'"));
    }
    proof {
        assert(!is_lone_at(raw@));
    }
    parse_raw(raw)
}

/// The keep-alive reply text: the first occurrence of `'I'` replaced by `'O'`,
/// every other character untouched.
pub open spec fn ping_reply_text(s: Seq<char>) -> Seq<char>
    decreases s.len(),
{
    if s.len() == 0 {
        s
    } else if s[0] == 'I' {
        seq!['O'] + s.skip(1)
    } else {
        seq![s[0]] + ping_reply_text(s.skip(1))
    }
}

proof fn lemma_ping_reply_splice(s: Seq<char>, i: int)
    requires
        0 <= i < s.len(),
        forall|j: int| 0 <= j < i ==> s[j] != 'I',
        s[i] == 'I',
    ensures
        ping_reply_text(s) == s.take(i) + seq!['O'] + s.skip(i + 1),
    decreases i,
{
    if i == 0 {
        assert(ping_reply_text(s) =~= s.take(0) + seq!['O'] + s.skip(1));
    } else {
        lemma_ping_reply_splice(s.skip(1), i - 1);
        assert(s.skip(1).take(i - 1) =~= s.take(i).skip(1));
        assert(s.skip(1).skip(i) =~= s.skip(i + 1));
        assert(ping_reply_text(s) =~= s.take(i) + seq!['O'] + s.skip(i + 1)) by {
            assert(ping_reply_text(s) == seq![s[0]] + ping_reply_text(s.skip(1)));
        }
    }
}

proof fn lemma_ping_reply_no_i(s: Seq<char>)
    requires
        forall|j: int| 0 <= j < s.len() ==> s[j] != 'I',
    ensures
        ping_reply_text(s) == s,
    decreases s.len(),
{
    if s.len() > 0 {
        lemma_ping_reply_no_i(s.skip(1));
        assert(ping_reply_text(s) =~= s);
    }
}

/// Build the keep-alive reply text for a raw text: replace only the first
/// `'I'` with `'O'`; a text without `'I'` comes back unchanged.
pub fn ping_reply(s: &str) -> (r: String)
    ensures
        r@ == ping_reply_text(s@),
{
    let n = s.unicode_len();
    let mut i: usize = 0;
    while i < n
        invariant
            i <= n,
            n == s@.len(),
            forall|j: int| 0 <= j < i ==> s@[j] != 'I',
        decreases n - i,
    {
        if s.get_char(i) == 'I' {
            let mut out = String::new();
            out.append(s.substring_char(0, i));
            out.append("O");
            out.append(s.substring_char(i + 1, n));
            proof {
                reveal_strlit("O");
                lemma_ping_reply_splice(s@, i as int);
                assert(out@ =~= ping_reply_text(s@));
            }
            return out;
        }
        i += 1;
    }
    proof {
        lemma_ping_reply_no_i(s@);
    }
    s.to_owned()
}

/// Synthesize the keep-alive reply for a received message: transform the raw
/// text and re-parse it; a text the parser refuses is reported, not dropped.
pub fn pong_for(m: &Message) -> (r: Result<Message, String>)
    ensures
        r is Ok <==> reply_parses(m@.raw),
        r matches Ok(p) ==> p@.raw == ping_reply_text(m@.raw) && p.wf(),
{
    let text = ping_reply(m.raw_text());
    parse_message(text.as_str())
}

} // verus!
