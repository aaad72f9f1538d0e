//! The open string enumerations carried by the node-info and payment-status
//! messages. Each is built from a raw field text by a fixed mapping table;
//! text that matches no named variant is preserved verbatim in the `Other`
//! variant, so the codec never fails on an unrecognized field value. The
//! reverse mapping reproduces the exact named literal, and the exact original
//! text for `Other`.

use vstd::prelude::*;

use crate::grammar::bytes_eq;
use crate::grammar::copy_bytes;

verus! {

/// The bytes of "PRODUCTION".
pub open spec fn lit_production() -> Seq<u8> {
    seq![80u8, 82, 79, 68, 85, 67, 84, 73, 79, 78]
}

/// The bytes of "DEVELOPMENT".
pub open spec fn lit_development() -> Seq<u8> {
    seq![68u8, 69, 86, 69, 76, 79, 80, 77, 69, 78, 84]
}

/// The bytes of "STORM".
pub open spec fn lit_storm() -> Seq<u8> {
    seq![83u8, 84, 79, 82, 77]
}

/// The bytes of "TRIAL".
pub open spec fn lit_trial() -> Seq<u8> {
    seq![84u8, 82, 73, 65, 76]
}

/// The bytes of "NEED_BILL".
pub open spec fn lit_need_bill() -> Seq<u8> {
    seq![78u8, 69, 69, 68, 95, 66, 73, 76, 76]
}

/// The bytes of "FREE".
pub open spec fn lit_free() -> Seq<u8> {
    seq![70u8, 82, 69, 69]
}

/// The bytes of "FREE_TO_PLAY".
pub open spec fn lit_free_to_play() -> Seq<u8> {
    seq![70u8, 82, 69, 69, 95, 84, 79, 95, 80, 76, 65, 89]
}

/// The bytes of "EXPIRED".
pub open spec fn lit_expired() -> Seq<u8> {
    seq![69u8, 88, 80, 73, 82, 69, 68]
}

/// The bytes of "NEW_TO_GAME".
pub open spec fn lit_new_to_game() -> Seq<u8> {
    seq![78u8, 69, 87, 95, 84, 79, 95, 71, 65, 77, 69]
}

fn bytes_production() -> (r: Vec<u8>)
    ensures
        r@ == lit_production(),
{
    let v: Vec<u8> = vec![80u8, 82, 79, 68, 85, 67, 84, 73, 79, 78];
    proof {
        assert(v@ =~= lit_production());
    }
    v
}

fn bytes_development() -> (r: Vec<u8>)
    ensures
        r@ == lit_development(),
{
    let v: Vec<u8> = vec![68u8, 69, 86, 69, 76, 79, 80, 77, 69, 78, 84];
    proof {
        assert(v@ =~= lit_development());
    }
    v
}

fn bytes_storm() -> (r: Vec<u8>)
    ensures
        r@ == lit_storm(),
{
    let v: Vec<u8> = vec![83u8, 84, 79, 82, 77];
    proof {
        assert(v@ =~= lit_storm());
    }
    v
}

fn bytes_trial() -> (r: Vec<u8>)
    ensures
        r@ == lit_trial(),
{
    let v: Vec<u8> = vec![84u8, 82, 73, 65, 76];
    proof {
        assert(v@ =~= lit_trial());
    }
    v
}

fn bytes_need_bill() -> (r: Vec<u8>)
    ensures
        r@ == lit_need_bill(),
{
    let v: Vec<u8> = vec![78u8, 69, 69, 68, 95, 66, 73, 76, 76];
    proof {
        assert(v@ =~= lit_need_bill());
    }
    v
}

fn bytes_free() -> (r: Vec<u8>)
    ensures
        r@ == lit_free(),
{
    let v: Vec<u8> = vec![70u8, 82, 69, 69];
    proof {
        assert(v@ =~= lit_free());
    }
    v
}

fn bytes_free_to_play() -> (r: Vec<u8>)
    ensures
        r@ == lit_free_to_play(),
{
    let v: Vec<u8> = vec![70u8, 82, 69, 69, 95, 84, 79, 95, 80, 76, 65, 89];
    proof {
        assert(v@ =~= lit_free_to_play());
    }
    v
}

fn bytes_expired() -> (r: Vec<u8>)
    ensures
        r@ == lit_expired(),
{
    let v: Vec<u8> = vec![69u8, 88, 80, 73, 82, 69, 68];
    proof {
        assert(v@ =~= lit_expired());
    }
    v
}

fn bytes_new_to_game() -> (r: Vec<u8>)
    ensures
        r@ == lit_new_to_game(),
{
    let v: Vec<u8> = vec![78u8, 69, 87, 95, 84, 79, 95, 71, 65, 77, 69];
    proof {
        assert(v@ =~= lit_new_to_game());
    }
    v
}

/// The environment a node runs in.
#[derive(Debug, Clone, PartialEq, Eq)]
pub enum NEnvironment {
    /// "PRODUCTION"
    Production,
    /// "DEVELOPMENT"
    Development,
    /// Any other value, preserved verbatim.
    Other(Vec<u8>),
}

pub enum NEnvironmentView {
    Production,
    Development,
    Other(Seq<u8>),
}

impl View for NEnvironment {
    type V = NEnvironmentView;

    open spec fn view(&self) -> NEnvironmentView {
        match self {
            NEnvironment::Production => NEnvironmentView::Production,
            NEnvironment::Development => NEnvironmentView::Development,
            NEnvironment::Other(s) => NEnvironmentView::Other(s@),
        }
    }
}

/// The fixed mapping table of the environment enumeration.
pub open spec fn spec_env_from(s: Seq<u8>) -> NEnvironmentView {
    if s == lit_production() {
        NEnvironmentView::Production
    } else if s == lit_development() {
        NEnvironmentView::Development
    } else {
        NEnvironmentView::Other(s)
    }
}

/// The raw text of an environment value.
pub open spec fn spec_env_text(e: NEnvironmentView) -> Seq<u8> {
    match e {
        NEnvironmentView::Production => lit_production(),
        NEnvironmentView::Development => lit_development(),
        NEnvironmentView::Other(s) => s,
    }
}

impl NEnvironment {
    /// Construct from the raw field text.
    pub fn from_text(s: &[u8]) -> (r: NEnvironment)
        ensures
            r@ == spec_env_from(s@),
    {
        if bytes_eq(s, bytes_production().as_slice()) {
            NEnvironment::Production
        } else if bytes_eq(s, bytes_development().as_slice()) {
            NEnvironment::Development
        } else {
            NEnvironment::Other(copy_bytes(s))
        }
    }

    /// The raw text this value stands for.
    pub fn to_text(&self) -> (r: Vec<u8>)
        ensures
            r@ == spec_env_text(self@),
    {
        match self {
            NEnvironment::Production => bytes_production(),
            NEnvironment::Development => bytes_development(),
            NEnvironment::Other(s) => copy_bytes(s.as_slice()),
        }
    }
}

/// Catch-all fidelity: environment text outside the named set round-trips
/// unchanged.
pub proof fn lemma_env_round_trip(s: Seq<u8>)
    requires
        s != lit_production(),
        s != lit_development(),
    ensures
        spec_env_text(spec_env_from(s)) == s,
{
}

/// Each named environment literal yields its named variant, and the named
/// variants round-trip through their text.
pub proof fn lemma_env_named()
    ensures
        spec_env_from(lit_production()) == NEnvironmentView::Production,
        spec_env_from(lit_development()) == NEnvironmentView::Development,
        spec_env_from(spec_env_text(NEnvironmentView::Production)) == NEnvironmentView::Production,
        spec_env_from(spec_env_text(NEnvironmentView::Development)) == NEnvironmentView::Development,
{
    assert(lit_production().len() == 10);
    assert(lit_development().len() == 11);
}

/// The game-session protocol a node speaks.
#[derive(Debug, Clone, PartialEq, Eq)]
pub enum NProtocol {
    /// "STORM"
    Storm,
    /// Any other value, preserved verbatim.
    Other(Vec<u8>),
}

pub enum NProtocolView {
    Storm,
    Other(Seq<u8>),
}

impl View for NProtocol {
    type V = NProtocolView;

    open spec fn view(&self) -> NProtocolView {
        match self {
            NProtocol::Storm => NProtocolView::Storm,
            NProtocol::Other(s) => NProtocolView::Other(s@),
        }
    }
}

/// The fixed mapping table of the protocol enumeration.
pub open spec fn spec_proto_from(s: Seq<u8>) -> NProtocolView {
    if s == lit_storm() {
        NProtocolView::Storm
    } else {
        NProtocolView::Other(s)
    }
}

/// The raw text of a protocol value.
pub open spec fn spec_proto_text(p: NProtocolView) -> Seq<u8> {
    match p {
        NProtocolView::Storm => lit_storm(),
        NProtocolView::Other(s) => s,
    }
}

impl NProtocol {
    /// Construct from the raw field text.
    pub fn from_text(s: &[u8]) -> (r: NProtocol)
        ensures
            r@ == spec_proto_from(s@),
    {
        if bytes_eq(s, bytes_storm().as_slice()) {
            NProtocol::Storm
        } else {
            NProtocol::Other(copy_bytes(s))
        }
    }

    /// The raw text this value stands for.
    pub fn to_text(&self) -> (r: Vec<u8>)
        ensures
            r@ == spec_proto_text(self@),
    {
        match self {
            NProtocol::Storm => bytes_storm(),
            NProtocol::Other(s) => copy_bytes(s.as_slice()),
        }
    }
}

/// Catch-all fidelity: protocol text outside the named set round-trips
/// unchanged.
pub proof fn lemma_proto_round_trip(s: Seq<u8>)
    requires
        s != lit_storm(),
    ensures
        spec_proto_text(spec_proto_from(s)) == s,
{
}

/// The named protocol literal yields its named variant, and the named
/// variant round-trips through its text.
pub proof fn lemma_proto_named()
    ensures
        spec_proto_from(lit_storm()) == NProtocolView::Storm,
        spec_proto_from(spec_proto_text(NProtocolView::Storm)) == NProtocolView::Storm,
{
}

/// The access tier attached to a node; the whole field is optional on the
/// wire, and an absent field is the `None` tier.
#[derive(Debug, Clone, PartialEq, Eq)]
pub enum NAccess {
    /// The access segment was absent.
    Absent,
    /// "TRIAL"
    Trial,
    /// Any other value, preserved verbatim.
    Other(Vec<u8>),
}

pub enum NAccessView {
    Absent,
    Trial,
    Other(Seq<u8>),
}

impl View for NAccess {
    type V = NAccessView;

    open spec fn view(&self) -> NAccessView {
        match self {
            NAccess::Absent => NAccessView::Absent,
            NAccess::Trial => NAccessView::Trial,
            NAccess::Other(s) => NAccessView::Other(s@),
        }
    }
}

/// The fixed mapping table of the access-tier enumeration.
pub open spec fn spec_access_from(s: Option<Seq<u8>>) -> NAccessView {
    match s {
        Option::None => NAccessView::Absent,
        Option::Some(t) => if t == lit_trial() {
            NAccessView::Trial
        } else {
            NAccessView::Other(t)
        },
    }
}

/// The raw text of an access-tier value; the absent tier has none.
pub open spec fn spec_access_text(a: NAccessView) -> Option<Seq<u8>> {
    match a {
        NAccessView::Absent => Option::None,
        NAccessView::Trial => Option::Some(lit_trial()),
        NAccessView::Other(s) => Option::Some(s),
    }
}

impl NAccess {
    /// Construct from the raw field text, or from an absent field.
    pub fn from_text(s: Option<&[u8]>) -> (r: NAccess)
        ensures
            s matches Some(t) ==> r@ == spec_access_from(Some(t@)),
            s is None ==> r@ == spec_access_from(None::<Seq<u8>>),
    {
        match s {
            Option::None => NAccess::Absent,
            Option::Some(t) => {
                if bytes_eq(t, bytes_trial().as_slice()) {
                    NAccess::Trial
                } else {
                    NAccess::Other(copy_bytes(t))
                }
            },
        }
    }

    /// The raw text this value stands for, or `None` for the absent tier.
    pub fn to_text(&self) -> (r: Option<Vec<u8>>)
        ensures
            r matches Some(v) ==> spec_access_text(self@) == Some(v@),
            r is None ==> spec_access_text(self@) is None,
    {
        match self {
            NAccess::Absent => Option::None,
            NAccess::Trial => Option::Some(bytes_trial()),
            NAccess::Other(s) => Option::Some(copy_bytes(s.as_slice())),
        }
    }
}

/// Catch-all fidelity: access-tier text outside the named set round-trips
/// unchanged.
pub proof fn lemma_access_round_trip(s: Seq<u8>)
    requires
        s != lit_trial(),
    ensures
        spec_access_text(spec_access_from(Some(s))) == Some(s),
{
}

/// The named access literal and the absent field yield their named variants,
/// and those round-trip.
pub proof fn lemma_access_named()
    ensures
        spec_access_from(Some(lit_trial())) == NAccessView::Trial,
        spec_access_from(None::<Seq<u8>>) == NAccessView::Absent,
        spec_access_from(spec_access_text(NAccessView::Trial)) == NAccessView::Trial,
        spec_access_from(spec_access_text(NAccessView::Absent)) == NAccessView::Absent,
{
}

/// The payment status of an account or instance.
#[derive(Debug, Clone, PartialEq, Eq)]
pub enum PaymentStatus {
    /// "NEED_BILL"
    NeedBill,
    /// "FREE"
    Free,
    /// "FREE_TO_PLAY"
    FreeToPlay,
    /// "EXPIRED"
    Expired,
    /// "NEW_TO_GAME"
    NewToGame,
    /// Any other value, preserved verbatim.
    Other(Vec<u8>),
}

pub enum PaymentStatusView {
    NeedBill,
    Free,
    FreeToPlay,
    Expired,
    NewToGame,
    Other(Seq<u8>),
}

impl View for PaymentStatus {
    type V = PaymentStatusView;

    open spec fn view(&self) -> PaymentStatusView {
        match self {
            PaymentStatus::NeedBill => PaymentStatusView::NeedBill,
            PaymentStatus::Free => PaymentStatusView::Free,
            PaymentStatus::FreeToPlay => PaymentStatusView::FreeToPlay,
            PaymentStatus::Expired => PaymentStatusView::Expired,
            PaymentStatus::NewToGame => PaymentStatusView::NewToGame,
            PaymentStatus::Other(s) => PaymentStatusView::Other(s@),
        }
    }
}

/// The fixed mapping table of the payment-status enumeration.
pub open spec fn spec_payment_from(s: Seq<u8>) -> PaymentStatusView {
    if s == lit_need_bill() {
        PaymentStatusView::NeedBill
    } else if s == lit_free() {
        PaymentStatusView::Free
    } else if s == lit_free_to_play() {
        PaymentStatusView::FreeToPlay
    } else if s == lit_expired() {
        PaymentStatusView::Expired
    } else if s == lit_new_to_game() {
        PaymentStatusView::NewToGame
    } else {
        PaymentStatusView::Other(s)
    }
}

/// The raw text of a payment-status value.
pub open spec fn spec_payment_text(p: PaymentStatusView) -> Seq<u8> {
    match p {
        PaymentStatusView::NeedBill => lit_need_bill(),
        PaymentStatusView::Free => lit_free(),
        PaymentStatusView::FreeToPlay => lit_free_to_play(),
        PaymentStatusView::Expired => lit_expired(),
        PaymentStatusView::NewToGame => lit_new_to_game(),
        PaymentStatusView::Other(s) => s,
    }
}

impl PaymentStatus {
    /// Construct from the raw field text.
    pub fn from_text(s: &[u8]) -> (r: PaymentStatus)
        ensures
            r@ == spec_payment_from(s@),
    {
        if bytes_eq(s, bytes_need_bill().as_slice()) {
            PaymentStatus::NeedBill
        } else if bytes_eq(s, bytes_free().as_slice()) {
            PaymentStatus::Free
        } else if bytes_eq(s, bytes_free_to_play().as_slice()) {
            PaymentStatus::FreeToPlay
        } else if bytes_eq(s, bytes_expired().as_slice()) {
            PaymentStatus::Expired
        } else if bytes_eq(s, bytes_new_to_game().as_slice()) {
            PaymentStatus::NewToGame
        } else {
            PaymentStatus::Other(copy_bytes(s))
        }
    }

    /// The raw text this value stands for.
    pub fn to_text(&self) -> (r: Vec<u8>)
        ensures
            r@ == spec_payment_text(self@),
    {
        match self {
            PaymentStatus::NeedBill => bytes_need_bill(),
            PaymentStatus::Free => bytes_free(),
            PaymentStatus::FreeToPlay => bytes_free_to_play(),
            PaymentStatus::Expired => bytes_expired(),
            PaymentStatus::NewToGame => bytes_new_to_game(),
            PaymentStatus::Other(s) => copy_bytes(s.as_slice()),
        }
    }
}

/// Catch-all fidelity: payment-status text outside the named set round-trips
/// unchanged.
pub proof fn lemma_payment_round_trip(s: Seq<u8>)
    requires
        s != lit_need_bill(),
        s != lit_free(),
        s != lit_free_to_play(),
        s != lit_expired(),
        s != lit_new_to_game(),
    ensures
        spec_payment_text(spec_payment_from(s)) == s,
{
}

/// Each named payment-status literal yields its named variant, and the named
/// variants round-trip through their text.
pub proof fn lemma_payment_named()
    ensures
        spec_payment_from(lit_need_bill()) == PaymentStatusView::NeedBill,
        spec_payment_from(lit_free()) == PaymentStatusView::Free,
        spec_payment_from(lit_free_to_play()) == PaymentStatusView::FreeToPlay,
        spec_payment_from(lit_expired()) == PaymentStatusView::Expired,
        spec_payment_from(lit_new_to_game()) == PaymentStatusView::NewToGame,
        spec_payment_from(spec_payment_text(PaymentStatusView::NeedBill))
            == PaymentStatusView::NeedBill,
        spec_payment_from(spec_payment_text(PaymentStatusView::Free)) == PaymentStatusView::Free,
        spec_payment_from(spec_payment_text(PaymentStatusView::FreeToPlay))
            == PaymentStatusView::FreeToPlay,
        spec_payment_from(spec_payment_text(PaymentStatusView::Expired))
            == PaymentStatusView::Expired,
        spec_payment_from(spec_payment_text(PaymentStatusView::NewToGame))
            == PaymentStatusView::NewToGame,
{
    assert(lit_need_bill().len() == 9);
    assert(lit_free().len() == 4);
    assert(lit_free_to_play().len() == 12);
    assert(lit_expired().len() == 7);
    assert(lit_new_to_game().len() == 11);
}

} // verus!
