use vstd::prelude::*;
use vstd::string::StringSliceAdditionalSpecFns;
use crate::text::push_slice;
use crate::text::push_str_bytes;

verus! {

/// The request methods a connection issues over its lifetime.
#[derive(Clone, Copy, Debug, PartialEq, Eq, Structural)]
pub enum Method {
    Initialize,
    ToolsList,
    ToolsCall,
}

/// The method name as it appears on the wire.
pub open spec fn method_text(m: Method) -> Seq<u8> {
    match m {
        Method::Initialize => "initialize".spec_bytes(),
        Method::ToolsList => "tools/list".spec_bytes(),
        Method::ToolsCall => "tools/call".spec_bytes(),
    }
}

/// Decimal digits of `n`, most significant first.
pub open spec fn dec_rep(n: nat) -> Seq<u8>
    decreases n,
{
    if n < 10 {
        seq![(0x30 + n) as u8]
    } else {
        dec_rep(n / 10).push((0x30 + n % 10) as u8)
    }
}

fn push_dec(out: &mut Vec<u8>, n: u64)
    ensures
        final(out)@ == old(out)@ + dec_rep(n as nat),
    decreases n,
{
    if n < 10 {
        let d: u8 = n as u8;
        out.push(0x30 + d);
        assert(old(out)@ + dec_rep(n as nat) =~= old(out)@.push((0x30 + n as nat) as u8));
    } else {
        push_dec(out, n / 10);
        let d: u8 = (n % 10) as u8;
        out.push(0x30 + d);
        assert(old(out)@ + dec_rep(n as nat) =~= (old(out)@ + dec_rep((n / 10) as nat)).push(
            (0x30 + n as nat % 10) as u8,
        ));
    }
}

/// One request line, without its terminating newline: a JSON-RPC 2.0 request
/// with the given id, method, and already-serialized `params` document.
pub open spec fn frame_spec(id: u64, m: Method, params: Seq<u8>) -> Seq<u8> {
    "{\"jsonrpc\":\"2.0\",\"id\":".spec_bytes() + dec_rep(id as nat)
        + ",\"method\":\"".spec_bytes() + method_text(m) + "\",\"params\":".spec_bytes() + params
        + "}".spec_bytes()
}

/// The request-id discipline of one live connection: ids start at 1 and each
/// request takes the next integer, whatever its method.
pub struct ProtocolSession {
    next_id: u64,
    issued: Ghost<Seq<u64>>,
}

impl ProtocolSession {
    /// The ids handed out so far, oldest first.
    pub closed spec fn issued_ids(self) -> Seq<u64> {
        self.issued@
    }

    /// The id the next request will carry.
    pub closed spec fn pending_id(self) -> u64 {
        self.next_id
    }

    /// Well-formed: the ids issued so far are exactly 1, 2, 3, ...
    pub closed spec fn wf(self) -> bool {
        &&& 1 <= self.next_id
        &&& self.issued@.len() == self.next_id - 1
        &&& forall|i: int| 0 <= i < self.issued@.len() ==> #[trigger] self.issued@[i] == i + 1
    }

    /// The id counter has room for one more request.
    pub closed spec fn can_issue(self) -> bool {
        self.next_id < u64::MAX
    }

    pub fn new() -> (s: Self)
        ensures
            s.wf(),
            s.can_issue(),
            s.issued_ids() == Seq::<u64>::empty(),
            s.pending_id() == 1,
    {
        ProtocolSession { next_id: 1, issued: Ghost(Seq::empty()) }
    }

    /// Whether the id counter has room for one more request.
    pub fn has_capacity(&self) -> (r: bool)
        ensures
            r == self.can_issue(),
    {
        self.next_id < u64::MAX
    }

    /// Issues the next request id and builds the request line carrying it.
    pub fn build_request(&mut self, m: Method, params: &[u8]) -> (r: Vec<u8>)
        requires
            old(self).wf(),
            old(self).can_issue(),
        ensures
            final(self).wf(),
            old(self).pending_id() == old(self).issued_ids().len() + 1,
            final(self).issued_ids() == old(self).issued_ids().push(old(self).pending_id()),
            final(self).pending_id() == old(self).pending_id() + 1,
            r@ == frame_spec(old(self).pending_id(), m, params@),
    {
        let id = self.next_id;
        self.next_id = self.next_id + 1;
        proof {
            self.issued@ = self.issued@.push(id);
        }
        let mut out: Vec<u8> = Vec::new();
        push_str_bytes(&mut out, "{\"jsonrpc\":\"2.0\",\"id\":");
        push_dec(&mut out, id);
        push_str_bytes(&mut out, ",\"method\":\"");
        match m {
            Method::Initialize => push_str_bytes(&mut out, "initialize"),
            Method::ToolsList => push_str_bytes(&mut out, "tools/list"),
            Method::ToolsCall => push_str_bytes(&mut out, "tools/call"),
        }
        push_str_bytes(&mut out, "\",\"params\":");
        push_slice(&mut out, params);
        push_str_bytes(&mut out, "}");
        proof {
            assert(out@ =~= frame_spec(id, m, params@));
        }
        out
    }
}

/// A hex digit as a byte, for `d < 16`.
pub open spec fn hex_digit(d: nat) -> u8 {
    if d < 10 {
        (0x30 + d) as u8
    } else {
        (0x61 + (d - 10)) as u8
    }
}

/// How one byte of a string appears inside a JSON string literal: quote and
/// backslash are escaped, control bytes take their short or `\u00XX` form,
/// everything else passes through.
pub open spec fn escape_byte(b: u8) -> Seq<u8> {
    if b == 0x22 {
        seq![0x5c, 0x22]
    } else if b == 0x5c {
        seq![0x5c, 0x5c]
    } else if b == 0x08 {
        seq![0x5c, 0x62]
    } else if b == 0x09 {
        seq![0x5c, 0x74]
    } else if b == 0x0a {
        seq![0x5c, 0x6e]
    } else if b == 0x0c {
        seq![0x5c, 0x66]
    } else if b == 0x0d {
        seq![0x5c, 0x72]
    } else if b < 0x20 {
        seq![0x5c, 0x75, 0x30, 0x30, hex_digit((b / 16) as nat), hex_digit((b % 16) as nat)]
    } else {
        seq![b]
    }
}

/// The JSON string-literal body for `s`: each byte escaped in order.
pub open spec fn escaped(s: Seq<u8>) -> Seq<u8>
    decreases s.len(),
{
    if s.len() == 0 {
        Seq::empty()
    } else {
        escape_byte(s[0]) + escaped(s.drop_first())
    }
}

proof fn lemma_escaped_push(s: Seq<u8>, b: u8)
    ensures
        escaped(s.push(b)) == escaped(s) + escape_byte(b),
    decreases s.len(),
{
    if s.len() == 0 {
        assert(s.push(b).drop_first() =~= Seq::<u8>::empty());
        assert(s.push(b)[0] == b);
        assert(escaped(s.push(b)) == escape_byte(b) + escaped(Seq::<u8>::empty()));
        assert(escaped(s.push(b)) =~= escaped(s) + escape_byte(b));
    } else {
        assert(s.push(b).drop_first() =~= s.drop_first().push(b));
        lemma_escaped_push(s.drop_first(), b);
        assert(s.push(b)[0] == s[0]);
        assert(escaped(s.push(b)) == escape_byte(s[0]) + escaped(s.drop_first().push(b)));
        assert(escaped(s) == escape_byte(s[0]) + escaped(s.drop_first()));
        assert(escape_byte(s[0]) + (escaped(s.drop_first()) + escape_byte(b)) =~= (escape_byte(s[0])
            + escaped(s.drop_first())) + escape_byte(b));
        assert(escaped(s.push(b)) =~= escaped(s) + escape_byte(b));
    }
}

fn push_escaped_byte(out: &mut Vec<u8>, b: u8)
    ensures
        final(out)@ == old(out)@ + escape_byte(b),
{
    if b == 0x22 || b == 0x5c {
        out.push(0x5c);
        out.push(b);
    } else if b == 0x08 {
        out.push(0x5c);
        out.push(0x62);
    } else if b == 0x09 {
        out.push(0x5c);
        out.push(0x74);
    } else if b == 0x0a {
        out.push(0x5c);
        out.push(0x6e);
    } else if b == 0x0c {
        out.push(0x5c);
        out.push(0x66);
    } else if b == 0x0d {
        out.push(0x5c);
        out.push(0x72);
    } else if b < 0x20 {
        out.push(0x5c);
        out.push(0x75);
        out.push(0x30);
        out.push(0x30);
        let hi: u8 = b / 16;
        let lo: u8 = b % 16;
        out.push(if hi < 10 { 0x30 + hi } else { 0x61 + (hi - 10) });
        out.push(if lo < 10 { 0x30 + lo } else { 0x61 + (lo - 10) });
    } else {
        out.push(b);
    }
    assert(final(out)@ =~= old(out)@ + escape_byte(b));
}

/// Appends the escaped form of `s` to `out`.
fn push_escaped(out: &mut Vec<u8>, s: &[u8])
    ensures
        final(out)@ == old(out)@ + escaped(s@),
{
    let mut i: usize = 0;
    assert(out@ =~= old(out)@ + escaped(s@.subrange(0, 0)));
    while i < s.len()
        invariant
            i <= s@.len(),
            out@ == old(out)@ + escaped(s@.subrange(0, i as int)),
        decreases s@.len() - i,
    {
        push_escaped_byte(out, s[i]);
        proof {
            assert(s@.subrange(0, i + 1) =~= s@.subrange(0, i as int).push(s@[i as int]));
            lemma_escaped_push(s@.subrange(0, i as int), s@[i as int]);
        }
        i = i + 1;
    }
    assert(s@.subrange(0, s@.len() as int) =~= s@);
}

/// The handshake payload: protocol version, an empty capability set, and the
/// client's name and version.
pub open spec fn initialize_params_spec() -> Seq<u8> {
    "{\"protocolVersion\":\"0.1.0\",\"capabilities\":{},\"clientInfo\":{\"name\":\"Axen\",\"version\":\"0.1.0\"}}".spec_bytes()
}

pub fn initialize_params() -> (r: Vec<u8>)
    ensures
        r@ == initialize_params_spec(),
{
    let mut out: Vec<u8> = Vec::new();
    push_str_bytes(
        &mut out,
        "{\"protocolVersion\":\"0.1.0\",\"capabilities\":{},\"clientInfo\":{\"name\":\"Axen\",\"version\":\"0.1.0\"}}",
    );
    proof {
        assert(out@ =~= initialize_params_spec());
    }
    out
}

/// Tool discovery takes an empty parameter object.
pub open spec fn list_tools_params_spec() -> Seq<u8> {
    "{}".spec_bytes()
}

pub fn list_tools_params() -> (r: Vec<u8>)
    ensures
        r@ == list_tools_params_spec(),
{
    let mut out: Vec<u8> = Vec::new();
    push_str_bytes(&mut out, "{}");
    proof {
        assert(out@ =~= list_tools_params_spec());
    }
    out
}

/// The invocation payload: the tool's name as an escaped JSON string, and its
/// already-serialized arguments document, passed through unvalidated.
pub open spec fn call_tool_params_spec(name: Seq<u8>, args: Seq<u8>) -> Seq<u8> {
    "{\"name\":\"".spec_bytes() + escaped(name) + "\",\"arguments\":".spec_bytes() + args
        + "}".spec_bytes()
}

pub fn call_tool_params(name: &str, args_json: &[u8]) -> (r: Vec<u8>)
    ensures
        r@ == call_tool_params_spec(name.spec_bytes(), args_json@),
{
    let mut out: Vec<u8> = Vec::new();
    push_str_bytes(&mut out, "{\"name\":\"");
    push_escaped(&mut out, name.as_bytes());
    push_str_bytes(&mut out, "\",\"arguments\":");
    push_slice(&mut out, args_json);
    push_str_bytes(&mut out, "}");
    proof {
        assert(out@ =~= call_tool_params_spec(name.spec_bytes(), args_json@));
    }
    out
}

/// What a non-blocking poll of the subprocess reported.
#[derive(Clone, Copy, Debug, PartialEq, Eq, Structural)]
pub enum PollOutcome {
    /// The process has exited.
    Exited,
    /// The process is still running.
    Running,
    /// The status could not be determined.
    Unknown,
}

/// A connection counts as alive only when the poll says the process is still
/// running; an exit and an undeterminable status both count as not alive.
pub fn liveness(p: PollOutcome) -> (r: bool)
    ensures
        r == (p == PollOutcome::Running),
{
    match p {
        PollOutcome::Running => true,
        _ => false,
    }
}

/// Request ids on one connection are strictly increasing 1, 2, 3, ... across
/// every mix of methods: the i-th id issued is exactly i + 1, so later ids are
/// strictly greater than earlier ones.
pub proof fn lemma_request_ids_strictly_increasing(s: ProtocolSession)
    requires
        s.wf(),
    ensures
        forall|i: int| 0 <= i < s.issued_ids().len() ==> #[trigger] s.issued_ids()[i] == i + 1,
        forall|i: int, j: int|
            0 <= i < j < s.issued_ids().len() ==> s.issued_ids()[i] < s.issued_ids()[j],
{
}

} // verus!
