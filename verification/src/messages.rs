//! The nine message shapes of the handshake, each with a specification
//! function that defines exactly which lines it accepts and what value such a
//! line carries, an executable parser proved to match that definition, and,
//! where the protocol has an outbound form, an encoder whose exact output
//! bytes are stated.
//!
//! Every parser consumes the entire input line and requires the terminating
//! newline as the final token; anything else is a parse failure, the codec's
//! single error kind.

use vstd::prelude::*;

use crate::fields::NAccess;
use crate::fields::NAccessView;
use crate::fields::NEnvironment;
use crate::fields::NEnvironmentView;
use crate::fields::NProtocol;
use crate::fields::NProtocolView;
use crate::fields::PaymentStatus;
use crate::fields::PaymentStatusView;
use crate::fields::spec_access_from;
use crate::fields::spec_env_from;
use crate::fields::spec_payment_from;
use crate::fields::spec_proto_from;
use crate::fields::spec_proto_text;
use crate::grammar::EQ;
use crate::grammar::NL;
use crate::grammar::PIPE;
use crate::grammar::TAB;
use crate::grammar::lemma_digits_end_props;
use crate::grammar::lemma_literal_extend;
use crate::grammar::lemma_number_extend;
use crate::grammar::lemma_word_extend;
use crate::grammar::lemma_word_props;
use crate::grammar::literal;
use crate::grammar::number;
use crate::grammar::pairs_view;
use crate::grammar::parse_pairs;
use crate::grammar::push_all;
use crate::grammar::spec_literal;
use crate::grammar::spec_number;
use crate::grammar::spec_pairs;
use crate::grammar::spec_word;
use crate::grammar::word;

verus! {

/// The codec's single error kind: the input line does not match the
/// message's grammar. The payload describes what was expected.
#[derive(Debug, Clone, PartialEq, Eq)]
pub enum Error {
    ParseError(String),
}

impl Error {
    /// The human-readable description the error carries.
    pub fn message(&self) -> (r: String)
        ensures
            self matches Error::ParseError(what) ==> r@ == what@,
    {
        match self {
            Error::ParseError(what) => what.clone(),
        }
    }
}

fn parse_err(what: &str) -> (r: Error)
    ensures
        r is ParseError,
{
    Error::ParseError(what.to_owned())
}

/// The request line `<tag>` NL.
fn tag_line(tag: u8) -> (r: Vec<u8>)
    ensures
        r@ == seq![tag, NL],
{
    let mut v: Vec<u8> = Vec::new();
    v.push(tag);
    v.push(10);
    proof {
        assert(v@ =~= seq![tag, NL]);
    }
    v
}

/// The request line `<tag>` TAB `<node>` NL.
fn tag_node_line(tag: u8, node: &[u8]) -> (r: Vec<u8>)
    ensures
        r@ == seq![tag, TAB] + node@ + seq![NL],
{
    let mut v: Vec<u8> = Vec::new();
    v.push(tag);
    v.push(9);
    push_all(&mut v, node);
    v.push(10);
    proof {
        assert(v@ =~= seq![tag, TAB] + node@ + seq![NL]);
    }
    v
}

/// The hash-key response: the server-issued session key used to obfuscate
/// the password.
#[derive(Debug, Clone, PartialEq, Eq)]
pub struct K {
    pub key: Vec<u8>,
}

pub struct KView {
    pub key: Seq<u8>,
}

impl View for K {
    type V = KView;

    open spec fn view(&self) -> KView {
        KView { key: self.key@ }
    }
}

/// The hash-key line: `<key>` NL, consuming the entire input. The key is
/// free of tab and newline, and the terminator must be the newline: a line
/// that carries a tab — for instance one beginning with another message's
/// tab-delimited tag — is rejected.
pub open spec fn spec_parse_k(s: Seq<u8>) -> Option<KView> {
    match spec_word(s, 0, seq![TAB, NL]) {
        Some((key, j)) => if s[j - 1] == NL && j == s.len() {
            Some(KView { key })
        } else {
            None
        },
        None => None,
    }
}

impl K {
    /// Encode the hash-key request line `K` NL.
    pub fn out() -> (r: Vec<u8>)
        ensures
            r@ == seq![75u8, NL],
    {
        tag_line(75)
    }

    /// Parse one hash-key response line.
    pub fn parse(inp: &[u8]) -> (r: Result<K, Error>)
        ensures
            (r is Ok) == (spec_parse_k(inp@) is Some),
            r matches Ok(m) ==> spec_parse_k(inp@) == Some(m@),
    {
        let tab_nl: [u8; 2] = [9, 10];
        proof {
            assert(tab_nl@ =~= seq![TAB, NL]);
        }
        match word(inp, 0, tab_nl.as_slice()) {
            Some((key, j)) => {
                if inp[j - 1] == 10 && j == inp.len() {
                    Ok(K { key })
                } else {
                    Err(parse_err("hash key line: the key may hold no tab, and nothing may follow its newline"))
                }
            },
            None => Err(parse_err("hash key line: expected a newline-terminated key")),
        }
    }
}

/// The authentication acknowledgement: account, session key and display
/// name, as echoed back by the server after a successful login.
#[derive(Debug, Clone, PartialEq, Eq)]
pub struct A {
    pub account: Vec<u8>,
    pub key: Vec<u8>,
    pub name: Vec<u8>,
}

pub struct AView {
    pub account: Seq<u8>,
    pub key: Seq<u8>,
    pub name: Seq<u8>,
}

impl View for A {
    type V = AView;

    open spec fn view(&self) -> AView {
        AView { account: self.account@, key: self.key@, name: self.name@ }
    }
}

/// The authentication acknowledgement line:
/// `A` TAB `<account>` TAB `KEY` TAB `<key>` TAB `<name>` NL.
pub open spec fn spec_parse_a(s: Seq<u8>) -> Option<AView> {
    match spec_literal(s, 0, seq![65u8, TAB]) {
        None => None,
        Some(i1) => match spec_word(s, i1, seq![TAB]) {
            None => None,
            Some((account, i2)) => match spec_literal(s, i2, seq![75u8, 69, 89, TAB]) {
                None => None,
                Some(i3) => match spec_word(s, i3, seq![TAB]) {
                    None => None,
                    Some((key, i4)) => match spec_word(s, i4, seq![NL]) {
                        None => None,
                        Some((name, i5)) => if i5 == s.len() {
                            Some(AView { account, key, name })
                        } else {
                            None
                        },
                    },
                },
            },
        },
    }
}

impl A {
    /// Encode the authentication request line:
    /// `A` TAB `<account>` TAB `<hashed password>` NL. The caller supplies
    /// the password already obfuscated with the session hash key.
    pub fn out(account: &[u8], hashed_password: &[u8]) -> (r: Vec<u8>)
        ensures
            r@ == seq![65u8, TAB] + account@ + seq![TAB] + hashed_password@ + seq![NL],
    {
        let mut v: Vec<u8> = Vec::new();
        v.push(65);
        v.push(9);
        push_all(&mut v, account);
        v.push(9);
        push_all(&mut v, hashed_password);
        v.push(10);
        proof {
            assert(v@ =~= seq![65u8, TAB] + account@ + seq![TAB] + hashed_password@ + seq![NL]);
        }
        v
    }

    /// Parse one authentication acknowledgement line.
    pub fn parse(inp: &[u8]) -> (r: Result<A, Error>)
        ensures
            (r is Ok) == (spec_parse_a(inp@) is Some),
            r matches Ok(m) ==> spec_parse_a(inp@) == Some(m@),
    {
        let lit_tag: [u8; 2] = [65, 9];
        let lit_key: [u8; 4] = [75, 69, 89, 9];
        let tab: [u8; 1] = [9];
        let nl: [u8; 1] = [10];
        proof {
            assert(lit_tag@ =~= seq![65u8, TAB]);
            assert(lit_key@ =~= seq![75u8, 69, 89, TAB]);
            assert(tab@ =~= seq![TAB]);
            assert(nl@ =~= seq![NL]);
        }
        let i1: usize = match literal(inp, 0, lit_tag.as_slice()) {
            Some(j) => j,
            None => {
                return Err(parse_err("auth response: expected the literal `A` TAB"));
            },
        };
        let (account, i2): (Vec<u8>, usize) = match word(inp, i1, tab.as_slice()) {
            Some(p) => p,
            None => {
                return Err(parse_err("auth response: expected a tab-terminated account"));
            },
        };
        let i3: usize = match literal(inp, i2, lit_key.as_slice()) {
            Some(j) => j,
            None => {
                return Err(parse_err("auth response: expected the literal `KEY` TAB"));
            },
        };
        let (key, i4): (Vec<u8>, usize) = match word(inp, i3, tab.as_slice()) {
            Some(p) => p,
            None => {
                return Err(parse_err("auth response: expected a tab-terminated key"));
            },
        };
        let (name, i5): (Vec<u8>, usize) = match word(inp, i4, nl.as_slice()) {
            Some(p) => p,
            None => {
                return Err(parse_err("auth response: expected a newline-terminated name"));
            },
        };
        if i5 == inp.len() {
            Ok(A { account, key, name })
        } else {
            Err(parse_err("auth response: input after the newline"))
        }
    }
}

/// The instance-list response: the ordered (node identifier, display name)
/// pairs of the instances the account can reach, at least one.
#[derive(Debug, Clone, PartialEq, Eq)]
pub struct M(pub Vec<(Vec<u8>, Vec<u8>)>);

impl View for M {
    type V = Seq<(Seq<u8>, Seq<u8>)>;

    open spec fn view(&self) -> Seq<(Seq<u8>, Seq<u8>)> {
        pairs_view(self.0@)
    }
}

/// The instance-list line: `M` TAB then one or more `<node>` TAB `<name>`
/// pairs, each name terminated by TAB (more pairs follow) or NL (last pair),
/// consuming the entire input, whose final byte must be the newline.
pub open spec fn spec_parse_m(s: Seq<u8>) -> Option<Seq<(Seq<u8>, Seq<u8>)>> {
    match spec_literal(s, 0, seq![77u8, TAB]) {
        None => None,
        Some(i1) => {
            let (ps, end) = spec_pairs(s, i1, TAB);
            if ps.len() >= 1 && end == s.len() && s[s.len() - 1] == NL {
                Some(ps)
            } else {
                None
            }
        },
    }
}

impl M {
    /// Encode the instance-list request line `M` NL.
    pub fn out() -> (r: Vec<u8>)
        ensures
            r@ == seq![77u8, NL],
    {
        tag_line(77)
    }

    /// Parse one instance-list response line.
    pub fn parse(inp: &[u8]) -> (r: Result<M, Error>)
        ensures
            (r is Ok) == (spec_parse_m(inp@) is Some),
            r matches Ok(m) ==> spec_parse_m(inp@) == Some(m@),
    {
        let lit_tag: [u8; 2] = [77, 9];
        proof {
            assert(lit_tag@ =~= seq![77u8, TAB]);
        }
        let i1: usize = match literal(inp, 0, lit_tag.as_slice()) {
            Some(j) => j,
            None => {
                return Err(parse_err("instance list: expected the literal `M` TAB"));
            },
        };
        let (ps, end): (Vec<(Vec<u8>, Vec<u8>)>, usize) = parse_pairs(inp, i1, TAB);
        if ps.len() >= 1 && end == inp.len() && inp[inp.len() - 1] == 10 {
            Ok(M(ps))
        } else {
            Err(parse_err("instance list: expected newline-terminated node/name pairs"))
        }
    }
}

/// The node-info response: the environment, protocol and optional access
/// tier of one instance.
#[derive(Debug, Clone, PartialEq, Eq)]
pub struct N {
    pub environment: NEnvironment,
    pub protocol: NProtocol,
    pub access: NAccess,
}

pub struct NView {
    pub environment: NEnvironmentView,
    pub protocol: NProtocolView,
    pub access: NAccessView,
}

impl View for N {
    type V = NView;

    open spec fn view(&self) -> NView {
        NView { environment: self.environment@, protocol: self.protocol@, access: self.access@ }
    }
}

/// The node-info line: `N` TAB `<environment>` PIPE `<protocol>` and either
/// NL (no access segment) or PIPE `<access>` NL, consuming the entire input.
pub open spec fn spec_parse_n(s: Seq<u8>) -> Option<NView> {
    match spec_literal(s, 0, seq![78u8, TAB]) {
        None => None,
        Some(i1) => match spec_word(s, i1, seq![PIPE]) {
            None => None,
            Some((env, i2)) => match spec_word(s, i2, seq![PIPE, NL]) {
                None => None,
                Some((proto, i3)) => if s[i3 - 1] == NL {
                    if i3 == s.len() {
                        Some(NView {
                            environment: spec_env_from(env),
                            protocol: spec_proto_from(proto),
                            access: spec_access_from(None::<Seq<u8>>),
                        })
                    } else {
                        None
                    }
                } else {
                    match spec_word(s, i3, seq![NL]) {
                        None => None,
                        Some((acc, i4)) => if i4 == s.len() {
                            Some(NView {
                                environment: spec_env_from(env),
                                protocol: spec_proto_from(proto),
                                access: spec_access_from(Some(acc)),
                            })
                        } else {
                            None
                        },
                    }
                },
            },
        },
    }
}

impl N {
    /// Encode the node-info request line `N` TAB `<node>` NL.
    pub fn out(node: &[u8]) -> (r: Vec<u8>)
        ensures
            r@ == seq![78u8, TAB] + node@ + seq![NL],
    {
        tag_node_line(78, node)
    }

    /// Parse one node-info response line.
    pub fn parse(inp: &[u8]) -> (r: Result<N, Error>)
        ensures
            (r is Ok) == (spec_parse_n(inp@) is Some),
            r matches Ok(m) ==> spec_parse_n(inp@) == Some(m@),
    {
        let lit_tag: [u8; 2] = [78, 9];
        let pipe: [u8; 1] = [124];
        let pipe_nl: [u8; 2] = [124, 10];
        let nl: [u8; 1] = [10];
        proof {
            assert(lit_tag@ =~= seq![78u8, TAB]);
            assert(pipe@ =~= seq![PIPE]);
            assert(pipe_nl@ =~= seq![PIPE, NL]);
            assert(nl@ =~= seq![NL]);
        }
        let i1: usize = match literal(inp, 0, lit_tag.as_slice()) {
            Some(j) => j,
            None => {
                return Err(parse_err("node info: expected the literal `N` TAB"));
            },
        };
        let (env, i2): (Vec<u8>, usize) = match word(inp, i1, pipe.as_slice()) {
            Some(p) => p,
            None => {
                return Err(parse_err("node info: expected a pipe-terminated environment"));
            },
        };
        let (proto, i3): (Vec<u8>, usize) = match word(inp, i2, pipe_nl.as_slice()) {
            Some(p) => p,
            None => {
                return Err(parse_err("node info: expected a pipe- or newline-terminated protocol"));
            },
        };
        if inp[i3 - 1] == 10 {
            if i3 == inp.len() {
                Ok(N {
                    environment: NEnvironment::from_text(env.as_slice()),
                    protocol: NProtocol::from_text(proto.as_slice()),
                    access: NAccess::from_text(None),
                })
            } else {
                Err(parse_err("node info: input after the newline"))
            }
        } else {
            let (acc, i4): (Vec<u8>, usize) = match word(inp, i3, nl.as_slice()) {
                Some(p) => p,
                None => {
                    return Err(parse_err("node info: expected a newline-terminated access tier"));
                },
            };
            if i4 == inp.len() {
                Ok(N {
                    environment: NEnvironment::from_text(env.as_slice()),
                    protocol: NProtocol::from_text(proto.as_slice()),
                    access: NAccess::from_text(Some(acc.as_slice())),
                })
            } else {
                Err(parse_err("node info: input after the newline"))
            }
        }
    }
}

/// The payment-status response: one payment-status value.
#[derive(Debug, Clone, PartialEq, Eq)]
pub struct F(pub PaymentStatus);

impl View for F {
    type V = PaymentStatusView;

    open spec fn view(&self) -> PaymentStatusView {
        self.0@
    }
}

/// The payment-status line: `F` TAB `<status>` NL, consuming the entire
/// input.
pub open spec fn spec_parse_f(s: Seq<u8>) -> Option<PaymentStatusView> {
    match spec_literal(s, 0, seq![70u8, TAB]) {
        None => None,
        Some(i1) => match spec_word(s, i1, seq![NL]) {
            None => None,
            Some((status, i2)) => if i2 == s.len() {
                Some(spec_payment_from(status))
            } else {
                None
            },
        },
    }
}

impl F {
    /// Encode the payment-status request line `F` TAB `<node>` NL.
    pub fn out(node: &[u8]) -> (r: Vec<u8>)
        ensures
            r@ == seq![70u8, TAB] + node@ + seq![NL],
    {
        tag_node_line(70, node)
    }

    /// Parse one payment-status response line.
    pub fn parse(inp: &[u8]) -> (r: Result<F, Error>)
        ensures
            (r is Ok) == (spec_parse_f(inp@) is Some),
            r matches Ok(m) ==> spec_parse_f(inp@) == Some(m@),
    {
        let lit_tag: [u8; 2] = [70, 9];
        let nl: [u8; 1] = [10];
        proof {
            assert(lit_tag@ =~= seq![70u8, TAB]);
            assert(nl@ =~= seq![NL]);
        }
        let i1: usize = match literal(inp, 0, lit_tag.as_slice()) {
            Some(j) => j,
            None => {
                return Err(parse_err("payment status: expected the literal `F` TAB"));
            },
        };
        let (status, i2): (Vec<u8>, usize) = match word(inp, i1, nl.as_slice()) {
            Some(p) => p,
            None => {
                return Err(parse_err("payment status: expected a newline-terminated status"));
            },
        };
        if i2 == inp.len() {
            Ok(F(PaymentStatus::from_text(status.as_slice())))
        } else {
            Err(parse_err("payment status: input after the newline"))
        }
    }
}

/// The general-info response for one instance: its name, payment model and
/// an ordered, non-empty key/value list.
#[derive(Debug, Clone, PartialEq, Eq)]
pub struct G {
    pub name: Vec<u8>,
    pub model: PaymentStatus,
    pub data: Vec<(Vec<u8>, Vec<u8>)>,
}

pub struct GView {
    pub name: Seq<u8>,
    pub model: PaymentStatusView,
    pub data: Seq<(Seq<u8>, Seq<u8>)>,
}

impl View for G {
    type V = GView;

    open spec fn view(&self) -> GView {
        GView { name: self.name@, model: self.model@, data: pairs_view(self.data@) }
    }
}

/// The general-info line: `G` TAB `<name>` TAB `<model>` TAB `0` TAB TAB
/// then one or more `<key>` `=` `<value>` pairs, each value terminated by
/// TAB or NL, consuming the entire input, whose final byte must be the
/// newline.
pub open spec fn spec_parse_g(s: Seq<u8>) -> Option<GView> {
    match spec_literal(s, 0, seq![71u8, TAB]) {
        None => None,
        Some(i1) => match spec_word(s, i1, seq![TAB]) {
            None => None,
            Some((name, i2)) => match spec_word(s, i2, seq![TAB]) {
                None => None,
                Some((model, i3)) => match spec_literal(s, i3, seq![48u8, TAB, TAB]) {
                    None => None,
                    Some(i4) => {
                        let (ps, end) = spec_pairs(s, i4, EQ);
                        if ps.len() >= 1 && end == s.len() && s[s.len() - 1] == NL {
                            Some(GView { name, model: spec_payment_from(model), data: ps })
                        } else {
                            None
                        }
                    },
                },
            },
        },
    }
}

impl G {
    /// Encode the general-info request line `G` TAB `<node>` NL.
    pub fn out(node: &[u8]) -> (r: Vec<u8>)
        ensures
            r@ == seq![71u8, TAB] + node@ + seq![NL],
    {
        tag_node_line(71, node)
    }

    /// Parse one general-info response line.
    pub fn parse(inp: &[u8]) -> (r: Result<G, Error>)
        ensures
            (r is Ok) == (spec_parse_g(inp@) is Some),
            r matches Ok(m) ==> spec_parse_g(inp@) == Some(m@),
    {
        let lit_tag: [u8; 2] = [71, 9];
        let lit_zero: [u8; 3] = [48, 9, 9];
        let tab: [u8; 1] = [9];
        proof {
            assert(lit_tag@ =~= seq![71u8, TAB]);
            assert(lit_zero@ =~= seq![48u8, TAB, TAB]);
            assert(tab@ =~= seq![TAB]);
        }
        let i1: usize = match literal(inp, 0, lit_tag.as_slice()) {
            Some(j) => j,
            None => {
                return Err(parse_err("general info: expected the literal `G` TAB"));
            },
        };
        let (name, i2): (Vec<u8>, usize) = match word(inp, i1, tab.as_slice()) {
            Some(p) => p,
            None => {
                return Err(parse_err("general info: expected a tab-terminated name"));
            },
        };
        let (model, i3): (Vec<u8>, usize) = match word(inp, i2, tab.as_slice()) {
            Some(p) => p,
            None => {
                return Err(parse_err("general info: expected a tab-terminated model"));
            },
        };
        let i4: usize = match literal(inp, i3, lit_zero.as_slice()) {
            Some(j) => j,
            None => {
                return Err(parse_err("general info: expected the literal `0` TAB TAB"));
            },
        };
        let (ps, end): (Vec<(Vec<u8>, Vec<u8>)>, usize) = parse_pairs(inp, i4, EQ);
        if ps.len() >= 1 && end == inp.len() && inp[inp.len() - 1] == 10 {
            Ok(G { name, model: PaymentStatus::from_text(model.as_slice()), data: ps })
        } else {
            Err(parse_err("general info: expected newline-terminated key=value pairs"))
        }
    }
}

/// The six-field response whose meaning the protocol leaves undocumented;
/// its fields are preserved as opaque strings, not interpreted.
#[derive(Debug, Clone, PartialEq, Eq)]
pub struct P {
    pub p0: Vec<u8>,
    pub p1: Vec<u8>,
    pub p2: Vec<u8>,
    pub p3: Vec<u8>,
    pub p4: Vec<u8>,
    pub p5: Vec<u8>,
}

pub struct PView {
    pub p0: Seq<u8>,
    pub p1: Seq<u8>,
    pub p2: Seq<u8>,
    pub p3: Seq<u8>,
    pub p4: Seq<u8>,
    pub p5: Seq<u8>,
}

impl View for P {
    type V = PView;

    open spec fn view(&self) -> PView {
        PView {
            p0: self.p0@,
            p1: self.p1@,
            p2: self.p2@,
            p3: self.p3@,
            p4: self.p4@,
            p5: self.p5@,
        }
    }
}

/// The opaque six-field line: `P` TAB then five tab-terminated fields and a
/// newline-terminated sixth, consuming the entire input.
pub open spec fn spec_parse_p(s: Seq<u8>) -> Option<PView> {
    match spec_literal(s, 0, seq![80u8, TAB]) {
        None => None,
        Some(i1) => match spec_word(s, i1, seq![TAB]) {
            None => None,
            Some((p0, i2)) => match spec_word(s, i2, seq![TAB]) {
                None => None,
                Some((p1, i3)) => match spec_word(s, i3, seq![TAB]) {
                    None => None,
                    Some((p2, i4)) => match spec_word(s, i4, seq![TAB]) {
                        None => None,
                        Some((p3, i5)) => match spec_word(s, i5, seq![TAB]) {
                            None => None,
                            Some((p4, i6)) => match spec_word(s, i6, seq![NL]) {
                                None => None,
                                Some((p5, i7)) => if i7 == s.len() {
                                    Some(PView { p0, p1, p2, p3, p4, p5 })
                                } else {
                                    None
                                },
                            },
                        },
                    },
                },
            },
        },
    }
}

impl P {
    /// Encode the request line `P` TAB `<node>` NL.
    pub fn out(node: &[u8]) -> (r: Vec<u8>)
        ensures
            r@ == seq![80u8, TAB] + node@ + seq![NL],
    {
        tag_node_line(80, node)
    }

    /// Parse one opaque six-field response line.
    pub fn parse(inp: &[u8]) -> (r: Result<P, Error>)
        ensures
            (r is Ok) == (spec_parse_p(inp@) is Some),
            r matches Ok(m) ==> spec_parse_p(inp@) == Some(m@),
    {
        let lit_tag: [u8; 2] = [80, 9];
        let tab: [u8; 1] = [9];
        let nl: [u8; 1] = [10];
        proof {
            assert(lit_tag@ =~= seq![80u8, TAB]);
            assert(tab@ =~= seq![TAB]);
            assert(nl@ =~= seq![NL]);
        }
        let i1: usize = match literal(inp, 0, lit_tag.as_slice()) {
            Some(j) => j,
            None => {
                return Err(parse_err("six-field line: expected the literal `P` TAB"));
            },
        };
        let (p0, i2): (Vec<u8>, usize) = match word(inp, i1, tab.as_slice()) {
            Some(p) => p,
            None => {
                return Err(parse_err("six-field line: expected a tab-terminated field"));
            },
        };
        let (p1, i3): (Vec<u8>, usize) = match word(inp, i2, tab.as_slice()) {
            Some(p) => p,
            None => {
                return Err(parse_err("six-field line: expected a tab-terminated field"));
            },
        };
        let (p2, i4): (Vec<u8>, usize) = match word(inp, i3, tab.as_slice()) {
            Some(p) => p,
            None => {
                return Err(parse_err("six-field line: expected a tab-terminated field"));
            },
        };
        let (p3, i5): (Vec<u8>, usize) = match word(inp, i4, tab.as_slice()) {
            Some(p) => p,
            None => {
                return Err(parse_err("six-field line: expected a tab-terminated field"));
            },
        };
        let (p4, i6): (Vec<u8>, usize) = match word(inp, i5, tab.as_slice()) {
            Some(p) => p,
            None => {
                return Err(parse_err("six-field line: expected a tab-terminated field"));
            },
        };
        let (p5, i7): (Vec<u8>, usize) = match word(inp, i6, nl.as_slice()) {
            Some(p) => p,
            None => {
                return Err(parse_err("six-field line: expected a newline-terminated field"));
            },
        };
        if i7 == inp.len() {
            Ok(P { p0, p1, p2, p3, p4, p5 })
        } else {
            Err(parse_err("six-field line: input after the newline"))
        }
    }
}

/// The character-list response: the reported counts and the ordered
/// (character id, character name) pairs, possibly none.
#[derive(Debug, Clone, PartialEq, Eq)]
pub struct C {
    pub num_characters: u64,
    pub max_characters: u64,
    /// Undocumented numeric field, preserved but not interpreted.
    pub n0: u64,
    /// Undocumented numeric field, preserved but not interpreted.
    pub n1: u64,
    pub characters: Vec<(Vec<u8>, Vec<u8>)>,
}

pub struct CView {
    pub num_characters: u64,
    pub max_characters: u64,
    pub n0: u64,
    pub n1: u64,
    pub characters: Seq<(Seq<u8>, Seq<u8>)>,
}

impl View for C {
    type V = CView;

    open spec fn view(&self) -> CView {
        CView {
            num_characters: self.num_characters,
            max_characters: self.max_characters,
            n0: self.n0,
            n1: self.n1,
            characters: pairs_view(self.characters@),
        }
    }
}

/// The character-list line: `C` TAB, four unsigned integers separated by
/// TAB (the fourth terminated by TAB or NL), then zero or more `<id>` TAB
/// `<name>` pairs, each name terminated by TAB or NL, consuming the entire
/// input, whose final byte must be the newline.
pub open spec fn spec_parse_c(s: Seq<u8>) -> Option<CView> {
    match spec_literal(s, 0, seq![67u8, TAB]) {
        None => None,
        Some(i1) => match spec_number(s, i1) {
            None => None,
            Some((nc, i2)) => match spec_literal(s, i2, seq![TAB]) {
                None => None,
                Some(i3) => match spec_number(s, i3) {
                    None => None,
                    Some((ns, i4)) => match spec_literal(s, i4, seq![TAB]) {
                        None => None,
                        Some(i5) => match spec_number(s, i5) {
                            None => None,
                            Some((n0, i6)) => match spec_literal(s, i6, seq![TAB]) {
                                None => None,
                                Some(i7) => match spec_number(s, i7) {
                                    None => None,
                                    Some((n1, i8)) => if i8 < s.len() && (s[i8] == TAB || s[i8]
                                        == NL) {
                                        let (ps, end) = spec_pairs(s, i8 + 1, TAB);
                                        if end == s.len() && s[s.len() - 1] == NL {
                                            Some(CView {
                                                num_characters: nc,
                                                max_characters: ns,
                                                n0,
                                                n1,
                                                characters: ps,
                                            })
                                        } else {
                                            None
                                        }
                                    } else {
                                        None
                                    },
                                },
                            },
                        },
                    },
                },
            },
        },
    }
}

impl C {
    /// Encode the character-list request line `C` NL.
    pub fn out() -> (r: Vec<u8>)
        ensures
            r@ == seq![67u8, NL],
    {
        tag_line(67)
    }

    /// Parse one character-list response line.
    pub fn parse(inp: &[u8]) -> (r: Result<C, Error>)
        ensures
            (r is Ok) == (spec_parse_c(inp@) is Some),
            r matches Ok(m) ==> spec_parse_c(inp@) == Some(m@),
    {
        let lit_tag: [u8; 2] = [67, 9];
        let tab: [u8; 1] = [9];
        proof {
            assert(lit_tag@ =~= seq![67u8, TAB]);
            assert(tab@ =~= seq![TAB]);
        }
        let i1: usize = match literal(inp, 0, lit_tag.as_slice()) {
            Some(j) => j,
            None => {
                return Err(parse_err("character list: expected the literal `C` TAB"));
            },
        };
        let (nc, i2): (u64, usize) = match number(inp, i1) {
            Some(p) => p,
            None => {
                return Err(parse_err("character list: expected a character count"));
            },
        };
        let i3: usize = match literal(inp, i2, tab.as_slice()) {
            Some(j) => j,
            None => {
                return Err(parse_err("character list: expected a tab after the count"));
            },
        };
        let (ns, i4): (u64, usize) = match number(inp, i3) {
            Some(p) => p,
            None => {
                return Err(parse_err("character list: expected a character-slot maximum"));
            },
        };
        let i5: usize = match literal(inp, i4, tab.as_slice()) {
            Some(j) => j,
            None => {
                return Err(parse_err("character list: expected a tab after the maximum"));
            },
        };
        let (n0, i6): (u64, usize) = match number(inp, i5) {
            Some(p) => p,
            None => {
                return Err(parse_err("character list: expected a numeric field"));
            },
        };
        let i7: usize = match literal(inp, i6, tab.as_slice()) {
            Some(j) => j,
            None => {
                return Err(parse_err("character list: expected a tab after the numeric field"));
            },
        };
        let (n1, i8): (u64, usize) = match number(inp, i7) {
            Some(p) => p,
            None => {
                return Err(parse_err("character list: expected a numeric field"));
            },
        };
        if !(i8 < inp.len() && (inp[i8] == 9 || inp[i8] == 10)) {
            return Err(parse_err("character list: expected a tab or newline after the counts"));
        }
        let (ps, end): (Vec<(Vec<u8>, Vec<u8>)>, usize) = parse_pairs(inp, i8 + 1, TAB);
        if end == inp.len() && inp[inp.len() - 1] == 10 {
            Ok(C { num_characters: nc, max_characters: ns, n0, n1, characters: ps })
        } else {
            Err(parse_err("character list: expected newline-terminated id/name pairs"))
        }
    }
}

/// The launch-info response: everything needed to open the game-session
/// connection, most importantly the game host, game port and session key.
#[derive(Debug, Clone, PartialEq, Eq)]
pub struct L {
    pub upport: u64,
    pub game: Vec<u8>,
    pub game_code: Vec<u8>,
    pub full_game_name: Vec<u8>,
    pub game_file: Vec<u8>,
    pub game_host: Vec<u8>,
    pub game_port: u64,
    pub key: Vec<u8>,
}

pub struct LView {
    pub upport: u64,
    pub game: Seq<u8>,
    pub game_code: Seq<u8>,
    pub full_game_name: Seq<u8>,
    pub game_file: Seq<u8>,
    pub game_host: Seq<u8>,
    pub game_port: u64,
    pub key: Seq<u8>,
}

impl View for L {
    type V = LView;

    open spec fn view(&self) -> LView {
        LView {
            upport: self.upport,
            game: self.game@,
            game_code: self.game_code@,
            full_game_name: self.full_game_name@,
            game_file: self.game_file@,
            game_host: self.game_host@,
            game_port: self.game_port,
            key: self.key@,
        }
    }
}

/// The launch-info line: `L` TAB `OK` TAB `UPPORT=` uint TAB `GAME=` v TAB
/// `GAMECODE=` v TAB `FULLGAMENAME=` v TAB `GAMEFILE=` v TAB `GAMEHOST=` v
/// TAB `GAMEPORT=` uint TAB `KEY=` v NL, consuming the entire input.
pub open spec fn spec_parse_l(s: Seq<u8>) -> Option<LView> {
    // "L\tOK\tUPPORT="
    match spec_literal(s, 0, seq![76u8, TAB, 79, 75, TAB, 85, 80, 80, 79, 82, 84, EQ]) {
        None => None,
        Some(i1) => match spec_number(s, i1) {
            None => None,
            Some((upport, i2)) => match spec_literal(s, i2, seq![TAB]) {
                None => None,
                // "GAME="
                Some(i3) => match spec_literal(s, i3, seq![71u8, 65, 77, 69, EQ]) {
                    None => None,
                    Some(i4) => match spec_word(s, i4, seq![TAB]) {
                        None => None,
                        // "GAMECODE="
                        Some((game, i5)) => match spec_literal(
                            s,
                            i5,
                            seq![71u8, 65, 77, 69, 67, 79, 68, 69, EQ],
                        ) {
                            None => None,
                            Some(i6) => match spec_word(s, i6, seq![TAB]) {
                                None => None,
                                // "FULLGAMENAME="
                                Some((game_code, i7)) => match spec_literal(
                                    s,
                                    i7,
                                    seq![70u8, 85, 76, 76, 71, 65, 77, 69, 78, 65, 77, 69, EQ],
                                ) {
                                    None => None,
                                    Some(i8) => match spec_word(s, i8, seq![TAB]) {
                                        None => None,
                                        // "GAMEFILE="
                                        Some((full_game_name, i9)) => match spec_literal(
                                            s,
                                            i9,
                                            seq![71u8, 65, 77, 69, 70, 73, 76, 69, EQ],
                                        ) {
                                            None => None,
                                            Some(i10) => match spec_word(s, i10, seq![TAB]) {
                                                None => None,
                                                // "GAMEHOST="
                                                Some((game_file, i11)) => match spec_literal(
                                                    s,
                                                    i11,
                                                    seq![71u8, 65, 77, 69, 72, 79, 83, 84, EQ],
                                                ) {
                                                    None => None,
                                                    Some(i12) => match spec_word(
                                                        s,
                                                        i12,
                                                        seq![TAB],
                                                    ) {
                                                        None => None,
                                                        // "GAMEPORT="
                                                        Some((game_host, i13)) => match spec_literal(
                                                            s,
                                                            i13,
                                                            seq![
                                                                71u8,
                                                                65,
                                                                77,
                                                                69,
                                                                80,
                                                                79,
                                                                82,
                                                                84,
                                                                EQ,
                                                            ],
                                                        ) {
                                                            None => None,
                                                            Some(i14) => match spec_number(
                                                                s,
                                                                i14,
                                                            ) {
                                                                None => None,
                                                                Some((game_port, i15)) => match spec_literal(
                                                                    s,
                                                                    i15,
                                                                    seq![TAB],
                                                                ) {
                                                                    None => None,
                                                                    // "KEY="
                                                                    Some(i16) => match spec_literal(
                                                                        s,
                                                                        i16,
                                                                        seq![75u8, 69, 89, EQ],
                                                                    ) {
                                                                        None => None,
                                                                        Some(i17) => match spec_word(
                                                                            s,
                                                                            i17,
                                                                            seq![NL],
                                                                        ) {
                                                                            None => None,
                                                                            Some((key, i18)) => if i18
                                                                                == s.len() {
                                                                                Some(
                                                                                    LView {
                                                                                        upport,
                                                                                        game,
                                                                                        game_code,
                                                                                        full_game_name,
                                                                                        game_file,
                                                                                        game_host,
                                                                                        game_port,
                                                                                        key,
                                                                                    },
                                                                                )
                                                                            } else {
                                                                                None
                                                                            },
                                                                        },
                                                                    },
                                                                },
                                                            },
                                                        },
                                                    },
                                                },
                                            },
                                        },
                                    },
                                },
                            },
                        },
                    },
                },
            },
        },
    }
}

impl L {
    /// Encode the launch request line `L` TAB `<character id>` TAB
    /// `<protocol>` NL.
    pub fn out(character_id: &[u8], protocol: &NProtocol) -> (r: Vec<u8>)
        ensures
            r@ == seq![76u8, TAB] + character_id@ + seq![TAB] + spec_proto_text(protocol@)
                + seq![NL],
    {
        let mut v: Vec<u8> = Vec::new();
        v.push(76);
        v.push(9);
        push_all(&mut v, character_id);
        v.push(9);
        let proto = protocol.to_text();
        push_all(&mut v, proto.as_slice());
        v.push(10);
        proof {
            assert(v@ =~= seq![76u8, TAB] + character_id@ + seq![TAB] + spec_proto_text(protocol@)
                + seq![NL]);
        }
        v
    }

    /// Parse one launch-info response line.
    pub fn parse(inp: &[u8]) -> (r: Result<L, Error>)
        ensures
            (r is Ok) == (spec_parse_l(inp@) is Some),
            r matches Ok(m) ==> spec_parse_l(inp@) == Some(m@),
    {
        let lit_head: [u8; 12] = [76, 9, 79, 75, 9, 85, 80, 80, 79, 82, 84, 61];
        let lit_game: [u8; 5] = [71, 65, 77, 69, 61];
        let lit_game_code: [u8; 9] = [71, 65, 77, 69, 67, 79, 68, 69, 61];
        let lit_full_game_name: [u8; 13] = [70, 85, 76, 76, 71, 65, 77, 69, 78, 65, 77, 69, 61];
        let lit_game_file: [u8; 9] = [71, 65, 77, 69, 70, 73, 76, 69, 61];
        let lit_game_host: [u8; 9] = [71, 65, 77, 69, 72, 79, 83, 84, 61];
        let lit_game_port: [u8; 9] = [71, 65, 77, 69, 80, 79, 82, 84, 61];
        let lit_key: [u8; 4] = [75, 69, 89, 61];
        let tab: [u8; 1] = [9];
        let nl: [u8; 1] = [10];
        proof {
            assert(lit_head@ =~= seq![76u8, TAB, 79, 75, TAB, 85, 80, 80, 79, 82, 84, EQ]);
            assert(lit_game@ =~= seq![71u8, 65, 77, 69, EQ]);
            assert(lit_game_code@ =~= seq![71u8, 65, 77, 69, 67, 79, 68, 69, EQ]);
            assert(lit_full_game_name@ =~= seq![
                70u8,
                85,
                76,
                76,
                71,
                65,
                77,
                69,
                78,
                65,
                77,
                69,
                EQ,
            ]);
            assert(lit_game_file@ =~= seq![71u8, 65, 77, 69, 70, 73, 76, 69, EQ]);
            assert(lit_game_host@ =~= seq![71u8, 65, 77, 69, 72, 79, 83, 84, EQ]);
            assert(lit_game_port@ =~= seq![71u8, 65, 77, 69, 80, 79, 82, 84, EQ]);
            assert(lit_key@ =~= seq![75u8, 69, 89, EQ]);
            assert(tab@ =~= seq![TAB]);
            assert(nl@ =~= seq![NL]);
        }
        let i1: usize = match literal(inp, 0, lit_head.as_slice()) {
            Some(j) => j,
            None => {
                return Err(parse_err("launch info: expected the literal `L` TAB `OK` TAB `UPPORT=`"));
            },
        };
        let (upport, i2): (u64, usize) = match number(inp, i1) {
            Some(p) => p,
            None => {
                return Err(parse_err("launch info: expected an UPPORT number"));
            },
        };
        let i3: usize = match literal(inp, i2, tab.as_slice()) {
            Some(j) => j,
            None => {
                return Err(parse_err("launch info: expected a tab after UPPORT"));
            },
        };
        let i4: usize = match literal(inp, i3, lit_game.as_slice()) {
            Some(j) => j,
            None => {
                return Err(parse_err("launch info: expected the literal `GAME=`"));
            },
        };
        let (game, i5): (Vec<u8>, usize) = match word(inp, i4, tab.as_slice()) {
            Some(p) => p,
            None => {
                return Err(parse_err("launch info: expected a tab-terminated GAME value"));
            },
        };
        let i6: usize = match literal(inp, i5, lit_game_code.as_slice()) {
            Some(j) => j,
            None => {
                return Err(parse_err("launch info: expected the literal `GAMECODE=`"));
            },
        };
        let (game_code, i7): (Vec<u8>, usize) = match word(inp, i6, tab.as_slice()) {
            Some(p) => p,
            None => {
                return Err(parse_err("launch info: expected a tab-terminated GAMECODE value"));
            },
        };
        let i8: usize = match literal(inp, i7, lit_full_game_name.as_slice()) {
            Some(j) => j,
            None => {
                return Err(parse_err("launch info: expected the literal `FULLGAMENAME=`"));
            },
        };
        let (full_game_name, i9): (Vec<u8>, usize) = match word(inp, i8, tab.as_slice()) {
            Some(p) => p,
            None => {
                return Err(parse_err("launch info: expected a tab-terminated FULLGAMENAME value"));
            },
        };
        let i10: usize = match literal(inp, i9, lit_game_file.as_slice()) {
            Some(j) => j,
            None => {
                return Err(parse_err("launch info: expected the literal `GAMEFILE=`"));
            },
        };
        let (game_file, i11): (Vec<u8>, usize) = match word(inp, i10, tab.as_slice()) {
            Some(p) => p,
            None => {
                return Err(parse_err("launch info: expected a tab-terminated GAMEFILE value"));
            },
        };
        let i12: usize = match literal(inp, i11, lit_game_host.as_slice()) {
            Some(j) => j,
            None => {
                return Err(parse_err("launch info: expected the literal `GAMEHOST=`"));
            },
        };
        let (game_host, i13): (Vec<u8>, usize) = match word(inp, i12, tab.as_slice()) {
            Some(p) => p,
            None => {
                return Err(parse_err("launch info: expected a tab-terminated GAMEHOST value"));
            },
        };
        let i14: usize = match literal(inp, i13, lit_game_port.as_slice()) {
            Some(j) => j,
            None => {
                return Err(parse_err("launch info: expected the literal `GAMEPORT=`"));
            },
        };
        let (game_port, i15): (u64, usize) = match number(inp, i14) {
            Some(p) => p,
            None => {
                return Err(parse_err("launch info: expected a GAMEPORT number"));
            },
        };
        let i16: usize = match literal(inp, i15, tab.as_slice()) {
            Some(j) => j,
            None => {
                return Err(parse_err("launch info: expected a tab after GAMEPORT"));
            },
        };
        let i17: usize = match literal(inp, i16, lit_key.as_slice()) {
            Some(j) => j,
            None => {
                return Err(parse_err("launch info: expected the literal `KEY=`"));
            },
        };
        let (key, i18): (Vec<u8>, usize) = match word(inp, i17, nl.as_slice()) {
            Some(p) => p,
            None => {
                return Err(parse_err("launch info: expected a newline-terminated KEY value"));
            },
        };
        if i18 == inp.len() {
            Ok(L { upport, game, game_code, full_game_name, game_file, game_host, game_port, key })
        } else {
            Err(parse_err("launch info: input after the newline"))
        }
    }
}

/// A hash-key line parses only when its final byte is the newline terminator
/// and no earlier byte is a tab or newline: a line missing the newline, or
/// beginning with another message's tab-delimited tag, is rejected.
pub proof fn lemma_k_complete_line(s: Seq<u8>)
    ensures
        spec_parse_k(s) is Some ==> s.len() >= 1 && s[s.len() - 1] == NL
            && (forall|k: int| 0 <= k < s.len() - 1 ==> s[k] != TAB && s[k] != NL),
{
    lemma_word_props(s, 0, seq![TAB, NL]);
    if let Some((key, j)) = spec_word(s, 0, seq![TAB, NL]) {
        assert(seq![TAB, NL][0] == TAB);
        assert(seq![TAB, NL][1] == NL);
        assert(forall|k: int| 0 <= k < j - 1 ==> s[k] != TAB && s[k] != NL) by {
            assert(forall|k: int| 0 <= k < j - 1 ==> !seq![TAB, NL].contains(s[k]));
        }
    }
}

/// No complete hash-key line followed by more input is accepted: anything
/// after a parsed line's newline is rejected.
pub proof fn lemma_k_no_trailing(s: Seq<u8>, t: Seq<u8>)
    requires
        spec_parse_k(s) is Some,
        t.len() > 0,
    ensures
        spec_parse_k(s + t) is None,
{
    lemma_word_props(s, 0, seq![TAB, NL]);
    lemma_word_extend(s, t, 0, seq![TAB, NL]);
    if let Some((key, j)) = spec_word(s, 0, seq![TAB, NL]) {
        assert((s + t)[j - 1] == s[j - 1]);
    }
}

/// An authentication acknowledgement line parses only when it begins with
/// its `A` TAB tag and ends with the newline terminator: a line missing the
/// newline, or beginning with another message's tag, is rejected.
pub proof fn lemma_a_complete_line(s: Seq<u8>)
    ensures
        spec_parse_a(s) is Some ==> s.len() >= 2 && s[0] == 65 && s[1] == TAB
            && s[s.len() - 1] == NL,
{
    if spec_parse_a(s) is Some {
        assert(s.subrange(0, 2)[0] == s[0]);
        assert(s.subrange(0, 2)[1] == s[1]);
        if let Some(i1) = spec_literal(s, 0, seq![65u8, TAB]) {
            lemma_word_props(s, i1, seq![TAB]);
            if let Some((account, i2)) = spec_word(s, i1, seq![TAB]) {
                if let Some(i3) = spec_literal(s, i2, seq![75u8, 69, 89, TAB]) {
                    lemma_word_props(s, i3, seq![TAB]);
                    if let Some((key, i4)) = spec_word(s, i3, seq![TAB]) {
                        lemma_word_props(s, i4, seq![NL]);
                        if let Some((name, i5)) = spec_word(s, i4, seq![NL]) {
                            assert(seq![NL][0] == NL);
                        }
                    }
                }
            }
        }
    }
}

/// No complete authentication acknowledgement followed by more input is
/// accepted: anything after a parsed line's newline is rejected.
pub proof fn lemma_a_no_trailing(s: Seq<u8>, t: Seq<u8>)
    requires
        spec_parse_a(s) is Some,
        t.len() > 0,
    ensures
        spec_parse_a(s + t) is None,
{
    if let Some(i1) = spec_literal(s, 0, seq![65u8, TAB]) {
        lemma_literal_extend(s, t, 0, seq![65u8, TAB]);
        lemma_word_props(s, i1, seq![TAB]);
        lemma_word_extend(s, t, i1, seq![TAB]);
        if let Some((account, i2)) = spec_word(s, i1, seq![TAB]) {
            if let Some(i3) = spec_literal(s, i2, seq![75u8, 69, 89, TAB]) {
                lemma_literal_extend(s, t, i2, seq![75u8, 69, 89, TAB]);
                lemma_word_props(s, i3, seq![TAB]);
                lemma_word_extend(s, t, i3, seq![TAB]);
                if let Some((key, i4)) = spec_word(s, i3, seq![TAB]) {
                    lemma_word_extend(s, t, i4, seq![NL]);
                }
            }
        }
    }
}

/// An instance-list line parses only when it begins with its `M` TAB tag and
/// ends with the newline terminator.
pub proof fn lemma_m_complete_line(s: Seq<u8>)
    ensures
        spec_parse_m(s) is Some ==> s.len() >= 2 && s[0] == 77 && s[1] == TAB
            && s[s.len() - 1] == NL,
{
    if spec_parse_m(s) is Some {
        assert(s.subrange(0, 2)[0] == s[0]);
        assert(s.subrange(0, 2)[1] == s[1]);
    }
}

/// A node-info line parses only when it begins with its `N` TAB tag and ends
/// with the newline terminator.
pub proof fn lemma_n_complete_line(s: Seq<u8>)
    ensures
        spec_parse_n(s) is Some ==> s.len() >= 2 && s[0] == 78 && s[1] == TAB
            && s[s.len() - 1] == NL,
{
    if spec_parse_n(s) is Some {
        assert(s.subrange(0, 2)[0] == s[0]);
        assert(s.subrange(0, 2)[1] == s[1]);
        if let Some(i1) = spec_literal(s, 0, seq![78u8, TAB]) {
            lemma_word_props(s, i1, seq![PIPE]);
            if let Some((env, i2)) = spec_word(s, i1, seq![PIPE]) {
                lemma_word_props(s, i2, seq![PIPE, NL]);
                if let Some((proto, i3)) = spec_word(s, i2, seq![PIPE, NL]) {
                    if s[i3 - 1] != NL {
                        lemma_word_props(s, i3, seq![NL]);
                        if let Some((acc, i4)) = spec_word(s, i3, seq![NL]) {
                            assert(seq![NL][0] == NL);
                        }
                    }
                }
            }
        }
    }
}

/// No complete node-info line followed by more input is accepted: anything
/// after a parsed line's newline is rejected.
pub proof fn lemma_n_no_trailing(s: Seq<u8>, t: Seq<u8>)
    requires
        spec_parse_n(s) is Some,
        t.len() > 0,
    ensures
        spec_parse_n(s + t) is None,
{
    if let Some(i1) = spec_literal(s, 0, seq![78u8, TAB]) {
        lemma_literal_extend(s, t, 0, seq![78u8, TAB]);
        lemma_word_props(s, i1, seq![PIPE]);
        lemma_word_extend(s, t, i1, seq![PIPE]);
        if let Some((env, i2)) = spec_word(s, i1, seq![PIPE]) {
            lemma_word_props(s, i2, seq![PIPE, NL]);
            lemma_word_extend(s, t, i2, seq![PIPE, NL]);
            if let Some((proto, i3)) = spec_word(s, i2, seq![PIPE, NL]) {
                assert((s + t)[i3 - 1] == s[i3 - 1]);
                if s[i3 - 1] != NL {
                    lemma_word_props(s, i3, seq![NL]);
                    lemma_word_extend(s, t, i3, seq![NL]);
                }
            }
        }
    }
}

/// A payment-status line parses only when it begins with its `F` TAB tag and
/// ends with the newline terminator.
pub proof fn lemma_f_complete_line(s: Seq<u8>)
    ensures
        spec_parse_f(s) is Some ==> s.len() >= 2 && s[0] == 70 && s[1] == TAB
            && s[s.len() - 1] == NL,
{
    if spec_parse_f(s) is Some {
        assert(s.subrange(0, 2)[0] == s[0]);
        assert(s.subrange(0, 2)[1] == s[1]);
        if let Some(i1) = spec_literal(s, 0, seq![70u8, TAB]) {
            lemma_word_props(s, i1, seq![NL]);
            if let Some((status, i2)) = spec_word(s, i1, seq![NL]) {
                assert(seq![NL][0] == NL);
            }
        }
    }
}

/// No complete payment-status line followed by more input is accepted:
/// anything after a parsed line's newline is rejected.
pub proof fn lemma_f_no_trailing(s: Seq<u8>, t: Seq<u8>)
    requires
        spec_parse_f(s) is Some,
        t.len() > 0,
    ensures
        spec_parse_f(s + t) is None,
{
    if let Some(i1) = spec_literal(s, 0, seq![70u8, TAB]) {
        lemma_literal_extend(s, t, 0, seq![70u8, TAB]);
        lemma_word_props(s, i1, seq![NL]);
        lemma_word_extend(s, t, i1, seq![NL]);
    }
}

/// A general-info line parses only when it begins with its `G` TAB tag and
/// ends with the newline terminator.
pub proof fn lemma_g_complete_line(s: Seq<u8>)
    ensures
        spec_parse_g(s) is Some ==> s.len() >= 2 && s[0] == 71 && s[1] == TAB
            && s[s.len() - 1] == NL,
{
    if spec_parse_g(s) is Some {
        assert(s.subrange(0, 2)[0] == s[0]);
        assert(s.subrange(0, 2)[1] == s[1]);
    }
}

/// An opaque six-field line parses only when it begins with its `P` TAB tag
/// and ends with the newline terminator.
pub proof fn lemma_p_complete_line(s: Seq<u8>)
    ensures
        spec_parse_p(s) is Some ==> s.len() >= 2 && s[0] == 80 && s[1] == TAB
            && s[s.len() - 1] == NL,
{
    if spec_parse_p(s) is Some {
        assert(s.subrange(0, 2)[0] == s[0]);
        assert(s.subrange(0, 2)[1] == s[1]);
        if let Some(i1) = spec_literal(s, 0, seq![80u8, TAB]) {
            lemma_word_props(s, i1, seq![TAB]);
            if let Some((p0, i2)) = spec_word(s, i1, seq![TAB]) {
                lemma_word_props(s, i2, seq![TAB]);
                if let Some((p1, i3)) = spec_word(s, i2, seq![TAB]) {
                    lemma_word_props(s, i3, seq![TAB]);
                    if let Some((p2, i4)) = spec_word(s, i3, seq![TAB]) {
                        lemma_word_props(s, i4, seq![TAB]);
                        if let Some((p3, i5)) = spec_word(s, i4, seq![TAB]) {
                            lemma_word_props(s, i5, seq![TAB]);
                            if let Some((p4, i6)) = spec_word(s, i5, seq![TAB]) {
                                lemma_word_props(s, i6, seq![NL]);
                                if let Some((p5, i7)) = spec_word(s, i6, seq![NL]) {
                                    assert(seq![NL][0] == NL);
                                }
                            }
                        }
                    }
                }
            }
        }
    }
}

/// No complete opaque six-field line followed by more input is accepted:
/// anything after a parsed line's newline is rejected.
pub proof fn lemma_p_no_trailing(s: Seq<u8>, t: Seq<u8>)
    requires
        spec_parse_p(s) is Some,
        t.len() > 0,
    ensures
        spec_parse_p(s + t) is None,
{
    if let Some(i1) = spec_literal(s, 0, seq![80u8, TAB]) {
        lemma_literal_extend(s, t, 0, seq![80u8, TAB]);
        lemma_word_props(s, i1, seq![TAB]);
        lemma_word_extend(s, t, i1, seq![TAB]);
        if let Some((p0, i2)) = spec_word(s, i1, seq![TAB]) {
            lemma_word_props(s, i2, seq![TAB]);
            lemma_word_extend(s, t, i2, seq![TAB]);
            if let Some((p1, i3)) = spec_word(s, i2, seq![TAB]) {
                lemma_word_props(s, i3, seq![TAB]);
                lemma_word_extend(s, t, i3, seq![TAB]);
                if let Some((p2, i4)) = spec_word(s, i3, seq![TAB]) {
                    lemma_word_props(s, i4, seq![TAB]);
                    lemma_word_extend(s, t, i4, seq![TAB]);
                    if let Some((p3, i5)) = spec_word(s, i4, seq![TAB]) {
                        lemma_word_props(s, i5, seq![TAB]);
                        lemma_word_extend(s, t, i5, seq![TAB]);
                        if let Some((p4, i6)) = spec_word(s, i5, seq![TAB]) {
                            lemma_word_extend(s, t, i6, seq![NL]);
                        }
                    }
                }
            }
        }
    }
}

/// A character-list line parses only when it begins with its `C` TAB tag and
/// ends with the newline terminator.
pub proof fn lemma_c_complete_line(s: Seq<u8>)
    ensures
        spec_parse_c(s) is Some ==> s.len() >= 2 && s[0] == 67 && s[1] == TAB
            && s[s.len() - 1] == NL,
{
    if spec_parse_c(s) is Some {
        assert(s.subrange(0, 2)[0] == s[0]);
        assert(s.subrange(0, 2)[1] == s[1]);
    }
}

/// No complete launch-info line followed by more input is accepted: anything
/// after a parsed line's newline is rejected.
pub proof fn lemma_l_no_trailing(s: Seq<u8>, t: Seq<u8>)
    requires
        spec_parse_l(s) is Some,
        t.len() > 0,
    ensures
        spec_parse_l(s + t) is None,
{
    let head = seq![76u8, TAB, 79, 75, TAB, 85, 80, 80, 79, 82, 84, EQ];
    if let Some(i1) = spec_literal(s, 0, head) {
        lemma_literal_extend(s, t, 0, head);
        if let Some((upport, i2)) = spec_number(s, i1) {
            lemma_digits_end_props(s, i1);
            if let Some(i3) = spec_literal(s, i2, seq![TAB]) {
                lemma_number_extend(s, t, i1);
                lemma_literal_extend(s, t, i2, seq![TAB]);
                if let Some(i4) = spec_literal(s, i3, seq![71u8, 65, 77, 69, EQ]) {
                    lemma_literal_extend(s, t, i3, seq![71u8, 65, 77, 69, EQ]);
                    lemma_word_props(s, i4, seq![TAB]);
                    lemma_word_extend(s, t, i4, seq![TAB]);
                    if let Some((game, i5)) = spec_word(s, i4, seq![TAB]) {
                        let lit_code = seq![71u8, 65, 77, 69, 67, 79, 68, 69, EQ];
                        if let Some(i6) = spec_literal(s, i5, lit_code) {
                            lemma_literal_extend(s, t, i5, lit_code);
                            lemma_word_props(s, i6, seq![TAB]);
                            lemma_word_extend(s, t, i6, seq![TAB]);
                            if let Some((game_code, i7)) = spec_word(s, i6, seq![TAB]) {
                                let lit_full = seq![
                                    70u8,
                                    85,
                                    76,
                                    76,
                                    71,
                                    65,
                                    77,
                                    69,
                                    78,
                                    65,
                                    77,
                                    69,
                                    EQ,
                                ];
                                if let Some(i8) = spec_literal(s, i7, lit_full) {
                                    lemma_literal_extend(s, t, i7, lit_full);
                                    lemma_word_props(s, i8, seq![TAB]);
                                    lemma_word_extend(s, t, i8, seq![TAB]);
                                    if let Some((full_game_name, i9)) = spec_word(s, i8, seq![TAB]) {
                                        let lit_file = seq![71u8, 65, 77, 69, 70, 73, 76, 69, EQ];
                                        if let Some(i10) = spec_literal(s, i9, lit_file) {
                                            lemma_literal_extend(s, t, i9, lit_file);
                                            lemma_word_props(s, i10, seq![TAB]);
                                            lemma_word_extend(s, t, i10, seq![TAB]);
                                            if let Some((game_file, i11)) = spec_word(
                                                s,
                                                i10,
                                                seq![TAB],
                                            ) {
                                                let lit_host = seq![
                                                    71u8,
                                                    65,
                                                    77,
                                                    69,
                                                    72,
                                                    79,
                                                    83,
                                                    84,
                                                    EQ,
                                                ];
                                                if let Some(i12) = spec_literal(s, i11, lit_host) {
                                                    lemma_literal_extend(s, t, i11, lit_host);
                                                    lemma_word_props(s, i12, seq![TAB]);
                                                    lemma_word_extend(s, t, i12, seq![TAB]);
                                                    if let Some((game_host, i13)) = spec_word(
                                                        s,
                                                        i12,
                                                        seq![TAB],
                                                    ) {
                                                        let lit_port = seq![
                                                            71u8,
                                                            65,
                                                            77,
                                                            69,
                                                            80,
                                                            79,
                                                            82,
                                                            84,
                                                            EQ,
                                                        ];
                                                        if let Some(i14) = spec_literal(
                                                            s,
                                                            i13,
                                                            lit_port,
                                                        ) {
                                                            lemma_literal_extend(s, t, i13, lit_port);
                                                            if let Some((game_port, i15)) =
                                                                spec_number(s, i14) {
                                                                lemma_digits_end_props(s, i14);
                                                                if let Some(i16) = spec_literal(
                                                                    s,
                                                                    i15,
                                                                    seq![TAB],
                                                                ) {
                                                                    lemma_number_extend(s, t, i14);
                                                                    lemma_literal_extend(
                                                                        s,
                                                                        t,
                                                                        i15,
                                                                        seq![TAB],
                                                                    );
                                                                    let lit_key = seq![
                                                                        75u8,
                                                                        69,
                                                                        89,
                                                                        EQ,
                                                                    ];
                                                                    if let Some(i17) = spec_literal(
                                                                        s,
                                                                        i16,
                                                                        lit_key,
                                                                    ) {
                                                                        lemma_literal_extend(
                                                                            s,
                                                                            t,
                                                                            i16,
                                                                            lit_key,
                                                                        );
                                                                        lemma_word_props(
                                                                            s,
                                                                            i17,
                                                                            seq![NL],
                                                                        );
                                                                        lemma_word_extend(
                                                                            s,
                                                                            t,
                                                                            i17,
                                                                            seq![NL],
                                                                        );
                                                                    }
                                                                }
                                                            }
                                                        }
                                                    }
                                                }
                                            }
                                        }
                                    }
                                }
                            }
                        }
                    }
                }
            }
        }
    }
}

/// A launch-info line parses only when it begins with its `L` TAB tag and
/// ends with the newline terminator.
pub proof fn lemma_l_complete_line(s: Seq<u8>)
    ensures
        spec_parse_l(s) is Some ==> s.len() >= 2 && s[0] == 76 && s[1] == TAB
            && s[s.len() - 1] == NL,
{
    if spec_parse_l(s) is Some {
        let head = seq![76u8, TAB, 79, 75, TAB, 85, 80, 80, 79, 82, 84, EQ];
        assert(s.subrange(0, 12)[0] == s[0]);
        assert(s.subrange(0, 12)[1] == s[1]);
        if let Some(i1) = spec_literal(s, 0, head) {
            if let Some((upport, i2)) = spec_number(s, i1) {
                lemma_digits_end_props(s, i1);
                if let Some(i3) = spec_literal(s, i2, seq![TAB]) {
                    if let Some(i4) = spec_literal(s, i3, seq![71u8, 65, 77, 69, EQ]) {
                        lemma_word_props(s, i4, seq![TAB]);
                        if let Some((game, i5)) = spec_word(s, i4, seq![TAB]) {
                            if let Some(i6) = spec_literal(
                                s,
                                i5,
                                seq![71u8, 65, 77, 69, 67, 79, 68, 69, EQ],
                            ) {
                                lemma_word_props(s, i6, seq![TAB]);
                                if let Some((game_code, i7)) = spec_word(s, i6, seq![TAB]) {
                                    if let Some(i8) = spec_literal(
                                        s,
                                        i7,
                                        seq![70u8, 85, 76, 76, 71, 65, 77, 69, 78, 65, 77, 69, EQ],
                                    ) {
                                        lemma_word_props(s, i8, seq![TAB]);
                                        if let Some((full_game_name, i9)) = spec_word(
                                            s,
                                            i8,
                                            seq![TAB],
                                        ) {
                                            if let Some(i10) = spec_literal(
                                                s,
                                                i9,
                                                seq![71u8, 65, 77, 69, 70, 73, 76, 69, EQ],
                                            ) {
                                                lemma_word_props(s, i10, seq![TAB]);
                                                if let Some((game_file, i11)) = spec_word(
                                                    s,
                                                    i10,
                                                    seq![TAB],
                                                ) {
                                                    if let Some(i12) = spec_literal(
                                                        s,
                                                        i11,
                                                        seq![71u8, 65, 77, 69, 72, 79, 83, 84, EQ],
                                                    ) {
                                                        lemma_word_props(s, i12, seq![TAB]);
                                                        if let Some((game_host, i13)) = spec_word(
                                                            s,
                                                            i12,
                                                            seq![TAB],
                                                        ) {
                                                            if let Some(i14) = spec_literal(
                                                                s,
                                                                i13,
                                                                seq![
                                                                    71u8,
                                                                    65,
                                                                    77,
                                                                    69,
                                                                    80,
                                                                    79,
                                                                    82,
                                                                    84,
                                                                    EQ,
                                                                ],
                                                            ) {
                                                                if let Some((game_port, i15)) =
                                                                    spec_number(s, i14) {
                                                                    lemma_digits_end_props(s, i14);
                                                                    if let Some(i16) = spec_literal(
                                                                        s,
                                                                        i15,
                                                                        seq![TAB],
                                                                    ) {
                                                                        if let Some(i17) =
                                                                            spec_literal(
                                                                            s,
                                                                            i16,
                                                                            seq![75u8, 69, 89, EQ],
                                                                        ) {
                                                                            lemma_word_props(
                                                                                s,
                                                                                i17,
                                                                                seq![NL],
                                                                            );
                                                                            if let Some((key, i18))
                                                                                = spec_word(
                                                                                s,
                                                                                i17,
                                                                                seq![NL],
                                                                            ) {
                                                                                assert(seq![NL][0]
                                                                                    == NL);
                                                                            }
                                                                        }
                                                                    }
                                                                }
                                                            }
                                                        }
                                                    }
                                                }
                                            }
                                        }
                                    }
                                }
                            }
                        }
                    }
                }
            }
        }
    }
}

} // verus!
