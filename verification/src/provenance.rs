//! Channel labels carried in the type system.
//!
//! `Provenanced<Data, T>` and `Provenanced<Instruction, T>` are different
//! types, and only the latter can be unwrapped or handed on as an
//! instruction. Data-channel content crosses over only through
//! [`Provenanced::declassify`], which consumes a [`Declassification`].

use std::marker::PhantomData;

use vstd::prelude::*;

use crate::clearance::Declassification;
use crate::ids::ContentHash;
use crate::sealed::Sealed;

verus! {

/// Runtime form of a channel label, for logs and serialisation.
#[derive(Debug, Clone, Copy, PartialEq, Eq, Hash, Structural)]
pub enum ChannelLabel {
    /// Content the user authored. May be executed as an instruction.
    Instruction,
    /// Content the agent merely observed. May never be executed as an
    /// instruction without a [`Declassification`].
    Data,
}

impl ChannelLabel {
    /// The displayed form: `instruction` or `data`.
    pub fn to_string(&self) -> (s: String)
        ensures
            s@ == (match self {
                ChannelLabel::Instruction => "instruction"@,
                ChannelLabel::Data => "data"@,
            }),
    {
        match self {
            ChannelLabel::Instruction => String::from_str("instruction"),
            ChannelLabel::Data => String::from_str("data"),
        }
    }
}

/// A provenance channel. Sealed: there are exactly two, and a downstream crate
/// cannot invent a third with weaker rules.
pub trait Channel: Sealed {
    /// The runtime label corresponding to this channel.
    spec fn spec_label() -> ChannelLabel;

    /// The runtime label corresponding to this channel.
    fn label() -> (l: ChannelLabel)
        ensures
            l == Self::spec_label(),
    ;
}

/// The instruction channel: the user's own typed prompt, and nothing else by
/// default.
#[derive(Debug, Clone, Copy, PartialEq, Eq, Structural)]
pub struct Instruction;

/// The data channel: uploaded images, fetched pages, tool output, and every
/// string OCR pulls out of a picture.
#[derive(Debug, Clone, Copy, PartialEq, Eq, Structural)]
pub struct Data;

impl Sealed for Instruction {}

impl Sealed for Data {}

impl Channel for Instruction {
    open spec fn spec_label() -> ChannelLabel {
        ChannelLabel::Instruction
    }

    fn label() -> (l: ChannelLabel) {
        ChannelLabel::Instruction
    }
}

impl Channel for Data {
    open spec fn spec_label() -> ChannelLabel {
        ChannelLabel::Data
    }

    fn label() -> (l: ChannelLabel) {
        ChannelLabel::Data
    }
}

/// Where a piece of content came from.
#[derive(Debug, PartialEq, Eq)]
pub enum Origin {
    /// Typed by the user in this request.
    UserPrompt,
    /// An image part in the request body.
    UploadedImage {
        /// Hash of the encoded image bytes.
        hash: ContentHash,
        /// Index of the part within the request, for error messages.
        part_index: usize,
    },
    /// An image or page the proxy fetched on the agent's behalf.
    FetchedUrl {
        /// The URL.
        url: String,
        /// Hash of the fetched bytes.
        hash: ContentHash,
    },
    /// Output returned by a tool the agent called.
    ToolOutput {
        /// Name of the tool.
        tool: String,
    },
}

impl Clone for Origin {
    /// The same origin.
    fn clone(&self) -> (r: Self)
        ensures
            r == *self,
    {
        match self {
            Origin::UserPrompt => Origin::UserPrompt,
            Origin::UploadedImage { hash, part_index } => Origin::UploadedImage {
                hash: *hash,
                part_index: *part_index,
            },
            Origin::FetchedUrl { url, hash } => Origin::FetchedUrl { url: url.clone(), hash: *hash },
            Origin::ToolOutput { tool } => Origin::ToolOutput { tool: tool.clone() },
        }
    }
}

/// The channel an origin is admitted on: only the user's prompt carries
/// instructions; everything the agent observed is data.
pub open spec fn admitted(o: Origin) -> ChannelLabel {
    match o {
        Origin::UserPrompt => ChannelLabel::Instruction,
        _ => ChannelLabel::Data,
    }
}

impl Origin {
    /// The channel this origin is admitted on.
    pub fn admitted_channel(&self) -> (c: ChannelLabel)
        ensures
            c == admitted(*self),
    {
        match self {
            Origin::UserPrompt => ChannelLabel::Instruction,
            Origin::UploadedImage { .. } | Origin::FetchedUrl { .. } | Origin::ToolOutput {
                ..
            } => ChannelLabel::Data,
        }
    }
}

/// Constructing a [`Provenanced`] with an origin that does not belong on the
/// requested channel.
#[derive(Debug, Clone, Copy, PartialEq, Eq)]
pub enum ProvenanceError {
    /// An origin was offered to the wrong channel constructor.
    WrongChannel {
        /// Human-readable origin kind.
        origin: &'static str,
        /// Where the origin actually belongs.
        admitted: ChannelLabel,
        /// Where the caller tried to put it.
        requested: ChannelLabel,
    },
}

/// A payload that carries its channel in its type and its origin in its value.
#[derive(Debug, PartialEq, Eq)]
pub struct Provenanced<C: Channel, T> {
    payload: T,
    origin: Origin,
    channel: PhantomData<C>,
}

impl<C: Channel, T> Provenanced<C, T> {
    /// The content carried.
    pub closed spec fn content(self) -> T {
        self.payload
    }

    /// Where the content came from.
    pub closed spec fn source(self) -> Origin {
        self.origin
    }

    /// Whether the channel in the type is the one the origin is admitted on,
    /// as it is for every value admitted by `user_prompt` or `observed` and
    /// then mapped. A declassified value is the one kind that is not: its
    /// origin still names where it was observed.
    pub open spec fn in_step(self) -> bool {
        admitted(self.source()) == C::spec_label()
    }

    /// The runtime label for this value's channel.
    pub fn label(&self) -> (l: ChannelLabel)
        ensures
            l == C::spec_label(),
    {
        C::label()
    }

    /// Where this content came from. Declassification does not rewrite it.
    pub fn origin(&self) -> (o: &Origin)
        ensures
            *o == self.source(),
    {
        &self.origin
    }

    /// Borrow the payload for classification, hashing or logging, on either
    /// channel.
    pub fn inspect(&self) -> (p: &T)
        ensures
            *p == self.content(),
    {
        &self.payload
    }

    /// Transform the payload, preserving the channel and the origin.
    pub fn map<U, F>(self, f: F) -> (r: Provenanced<C, U>) where F: FnOnce(T) -> U
        requires
            f.requires((self.content(),)),
        ensures
            f.ensures((self.content(),), r.content()),
            r.source() == self.source(),
            self.in_step() ==> r.in_step(),
    {
        Provenanced { payload: f(self.payload), origin: self.origin, channel: PhantomData }
    }
}

impl<C: Channel, T: Clone> Clone for Provenanced<C, T> {
    /// A copy on the same channel, with the same origin.
    fn clone(&self) -> (r: Self)
        ensures
            cloned(self.content(), r.content()),
            r.source() == self.source(),
    {
        Provenanced { payload: self.payload.clone(), origin: self.origin.clone(), channel: PhantomData }
    }
}

impl<T> Provenanced<Instruction, T> {
    /// Admit the user's own prompt to the instruction channel.
    pub fn user_prompt(payload: T) -> (p: Self)
        ensures
            p.content() == payload,
            p.source() == Origin::UserPrompt,
            p.in_step(),
    {
        Provenanced { payload, origin: Origin::UserPrompt, channel: PhantomData }
    }

    /// Unwrap the payload. Defined only for the instruction channel.
    pub fn into_inner(self) -> (p: T)
        ensures
            p == self.content(),
    {
        self.payload
    }
}

impl<T> Provenanced<Data, T> {
    /// Admit observed content to the data channel. Rejects the user's prompt,
    /// which is not observed content.
    pub fn observed(payload: T, origin: Origin) -> (r: Result<Self, ProvenanceError>)
        ensures
            admitted(origin) == ChannelLabel::Data <==> r is Ok,
            r matches Ok(p) ==> p.content() == payload && p.source() == origin && p.in_step(),
            r matches Err(e) ==> e == (ProvenanceError::WrongChannel {
                origin: "user_prompt",
                admitted: ChannelLabel::Instruction,
                requested: ChannelLabel::Data,
            }),
    {
        let admitted = origin.admitted_channel();
        match admitted {
            ChannelLabel::Instruction => Err(
                ProvenanceError::WrongChannel {
                    origin: "user_prompt",
                    admitted,
                    requested: ChannelLabel::Data,
                },
            ),
            ChannelLabel::Data => Ok(Provenanced { payload, origin, channel: PhantomData }),
        }
    }

    /// Promote cleared content to the instruction channel, consuming the
    /// witness, so one clearance authorises exactly one declassification. The
    /// origin is kept for the audit trail.
    pub fn declassify(self, witness: Declassification) -> (p: Provenanced<Instruction, T>)
        ensures
            p.content() == self.content(),
            p.source() == self.source(),
            self.in_step() ==> !p.in_step(),
    {
        let _consumed = witness;
        Provenanced { payload: self.payload, origin: self.origin, channel: PhantomData }
    }
}

/// Law: mapping with a function that hands back its argument gives back the
/// value unchanged. `q` is any value that `p.map(f)` may return.
pub proof fn law_map_identity<C: Channel, T, F: FnOnce(T) -> T>(
    p: Provenanced<C, T>,
    f: F,
    q: Provenanced<C, T>,
)
    requires
        forall|x: T, y: T| #[trigger] f.ensures((x,), y) ==> y == x,
        f.ensures((p.content(),), q.content()),
        q.source() == p.source(),
    ensures
        q == p,
{
}

/// Law: mapping with `f` and then with `g` gives what mapping once with their
/// composition `h` gives, where `h` returns one value for each argument.
/// `q` is any value `p.map(f)` may return, `r` any that `q.map(g)` may, and
/// `s` any that `p.map(h)` may.
pub proof fn law_map_composes<
    C: Channel,
    T,
    U,
    V,
    F: FnOnce(T) -> U,
    G: FnOnce(U) -> V,
    H: FnOnce(T) -> V,
>(
    p: Provenanced<C, T>,
    f: F,
    g: G,
    h: H,
    q: Provenanced<C, U>,
    r: Provenanced<C, V>,
    s: Provenanced<C, V>,
)
    requires
        forall|x: T, y: U, z: V| #[trigger] f.ensures((x,), y) && #[trigger] g.ensures((y,), z)
            ==> h.ensures((x,), z),
        forall|x: T, z1: V, z2: V| #[trigger] h.ensures((x,), z1) && #[trigger] h.ensures((x,), z2)
            ==> z1 == z2,
        f.ensures((p.content(),), q.content()),
        q.source() == p.source(),
        g.ensures((q.content(),), r.content()),
        r.source() == q.source(),
        h.ensures((p.content(),), s.content()),
        s.source() == p.source(),
    ensures
        r == s,
{
}

/// Law: the user's prompt, admitted to the instruction channel and unwrapped,
/// is what was typed, and mapping it before unwrapping applies the function
/// to it. `p` is what `user_prompt(x)` returns, and `q` any value that
/// `p.map(f)` may return.
pub proof fn law_prompt_unwraps_to_itself<T, U, F: FnOnce(T) -> U>(
    x: T,
    p: Provenanced<Instruction, T>,
    f: F,
    q: Provenanced<Instruction, U>,
)
    requires
        p.content() == x,
        p.source() == Origin::UserPrompt,
        f.ensures((p.content(),), q.content()),
        q.source() == p.source(),
    ensures
        p.content() == x,
        f.ensures((x,), q.content()),
        q.in_step(),
{
}

} // verus!
