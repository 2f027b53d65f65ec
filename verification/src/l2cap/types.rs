//! Configuration of L2CAP channels, and why they end.
use crate::text::decimal_text;
use crate::time::seconds;
use std::time::Duration;
use vstd::prelude::*;

verus! {

/// L2CAP Protocol Service Multiplexer.
#[derive(Debug, Clone, Copy, PartialEq, Eq, Hash, Structural)]
pub struct Psm(pub u16);

impl Psm {
    #[must_use]
    pub fn value(self) -> (value: u16)
        ensures
            value == self.0,
    {
        self.0
    }

    /// The number in decimal.
    pub fn text(&self) -> (text: String)
        ensures
            text@ == crate::text::signed_decimal(self.0 as int),
    {
        decimal_text(self.0 as i128)
    }
}

impl From<u16> for Psm {
    fn from(v: u16) -> (psm: Self) {
        Psm(v)
    }
}

impl vstd::std_specs::convert::FromSpecImpl<u16> for Psm {
    open spec fn obeys_from_spec() -> bool {
        true
    }

    open spec fn from_spec(v: u16) -> Self {
        Psm(v)
    }
}

/// Default for [`L2capConfig::buffer_size`].
pub const DEFAULT_L2CAP_BUFFER_SIZE: usize = 64 * 1024;

/// Default for [`L2capConfig::read_chunk_size`].
pub const DEFAULT_L2CAP_READ_CHUNK_SIZE: usize = 4096;

/// Default for [`L2capConfig::linger_timeout`], in seconds.
pub const DEFAULT_L2CAP_LINGER_SECS: u64 = 1;

/// Floor applied to [`L2capConfig::buffer_size`].
///
/// A zero-capacity buffer is not a tight bound, it is a deadlock: it never
/// accepts a write, so neither direction could make progress.
pub const MIN_L2CAP_BUFFER_SIZE: usize = 1024;

/// Floor applied to [`L2capConfig::read_chunk_size`]. A zero-length read
/// makes no progress either.
pub const MIN_L2CAP_READ_CHUNK_SIZE: usize = 64;

/// Link security demanded of an L2CAP CoC channel.
///
/// Where a backend accepts a level, the OS or controller enforces it: a level
/// is either enforced by the platform or unavailable there. Platforms express
/// this at very different resolutions, so a backend maps the requested level
/// onto the nearest level its API can express that is never weaker than what
/// was asked for, rounding up where a platform is coarse and refusing outright
/// where it has nothing.
///
/// | | `Insecure` | `RequireEncryption` | `RequireAuthentication` |
/// |---|---|---|---|
/// | Apple peripheral | unencrypted | encrypted | unsupported |
/// | Apple central | as the peer insists | unsupported | unsupported |
/// | Android | insecure socket | secure socket (stronger) | secure socket |
/// | Linux | low | medium | high |
#[derive(Debug, Clone, Copy, PartialEq, Eq, Hash, Structural)]
#[non_exhaustive]
pub enum L2capEncryption {
    /// No link security requested: the channel may carry plaintext over an
    /// unbonded link. This is the default.
    Insecure,
    /// The link must be encrypted. Unauthenticated ("Just Works") pairing
    /// satisfies this.
    RequireEncryption,
    /// The link must be encrypted *and* the pairing authenticated
    /// (MITM-protected).
    RequireAuthentication,
}

impl Default for L2capEncryption {
    fn default() -> (level: Self)
        ensures
            level == L2capEncryption::Insecure,
    {
        L2capEncryption::Insecure
    }
}

impl L2capEncryption {
    /// The name of the level.
    pub open spec fn name(self) -> Seq<char> {
        match self {
            L2capEncryption::Insecure => "insecure"@,
            L2capEncryption::RequireEncryption => "require-encryption"@,
            L2capEncryption::RequireAuthentication => "require-authentication"@,
        }
    }

    /// How much the level demands: more is stronger.
    pub open spec fn strength(self) -> int {
        match self {
            L2capEncryption::Insecure => 0,
            L2capEncryption::RequireEncryption => 1,
            L2capEncryption::RequireAuthentication => 2,
        }
    }

    /// The name of the level.
    pub fn text(&self) -> (text: String)
        ensures
            text@ == self.name(),
    {
        match self {
            L2capEncryption::Insecure => "insecure".to_owned(),
            L2capEncryption::RequireEncryption => "require-encryption".to_owned(),
            L2capEncryption::RequireAuthentication => "require-authentication".to_owned(),
        }
    }
}

/// Tuning for a single L2CAP channel.
///
/// Linux observes none of the buffering fields: its channels are already async
/// byte streams, and the kernel socket buffers provide flow control. Apple and
/// Android marshal bytes between a platform socket and the async world, so
/// they observe all three. `encryption` is honoured everywhere.
#[derive(Debug, Clone)]
pub struct L2capConfig {
    /// Bytes buffered in each direction between the application and the
    /// platform socket.
    ///
    /// Raised to [`MIN_L2CAP_BUFFER_SIZE`], and to `read_chunk_size`, if set
    /// lower: a buffer too small to hold one read would stall rather than
    /// throttle.
    pub buffer_size: usize,
    /// Largest read issued against the platform socket at once.
    ///
    /// Raised to [`MIN_L2CAP_READ_CHUNK_SIZE`] if set lower.
    pub read_chunk_size: usize,
    /// How long the backend keeps a closing channel alive to finish writing
    /// whatever is still queued, before tearing it down regardless. `None`
    /// drains indefinitely and never forces teardown.
    pub linger_timeout: Option<Duration>,
    /// Link security demanded when publishing or opening a channel.
    pub encryption: L2capEncryption,
}

impl L2capConfig {
    /// Every field has its default.
    pub open spec fn is_default(self) -> bool {
        &&& self.buffer_size == DEFAULT_L2CAP_BUFFER_SIZE
        &&& self.read_chunk_size == DEFAULT_L2CAP_READ_CHUNK_SIZE
        &&& self.linger_timeout == Some(crate::time::secs_duration(DEFAULT_L2CAP_LINGER_SECS))
        &&& self.encryption == L2capEncryption::Insecure
    }

    /// `read_chunk_size` with the floor applied.
    pub open spec fn chunk(self) -> int {
        if self.read_chunk_size < MIN_L2CAP_READ_CHUNK_SIZE {
            MIN_L2CAP_READ_CHUNK_SIZE as int
        } else {
            self.read_chunk_size as int
        }
    }

    /// The largest of `buffer_size`, its floor and one read.
    pub open spec fn buffer(self) -> int {
        let floored = if self.buffer_size < MIN_L2CAP_BUFFER_SIZE {
            MIN_L2CAP_BUFFER_SIZE as int
        } else {
            self.buffer_size as int
        };
        if floored < self.chunk() {
            self.chunk()
        } else {
            floored
        }
    }

    /// `read_chunk_size` with the floor applied.
    #[must_use]
    pub fn effective_read_chunk_size(&self) -> (size: usize)
        ensures
            size == self.chunk(),
            size >= MIN_L2CAP_READ_CHUNK_SIZE,
    {
        if self.read_chunk_size < MIN_L2CAP_READ_CHUNK_SIZE {
            MIN_L2CAP_READ_CHUNK_SIZE
        } else {
            self.read_chunk_size
        }
    }

    /// `buffer_size` with the floors applied. Never smaller than one read,
    /// so a full chunk always has somewhere to land.
    #[must_use]
    pub fn effective_buffer_size(&self) -> (size: usize)
        ensures
            size == self.buffer(),
            size >= MIN_L2CAP_BUFFER_SIZE,
            size >= self.chunk(),
    {
        let chunk: usize = self.effective_read_chunk_size();
        let mut size: usize = self.buffer_size;
        if size < MIN_L2CAP_BUFFER_SIZE {
            size = MIN_L2CAP_BUFFER_SIZE;
        }
        if size < chunk {
            size = chunk;
        }
        size
    }
}

impl Default for L2capConfig {
    fn default() -> (config: Self)
        ensures
            config.is_default(),
    {
        L2capConfig {
            buffer_size: DEFAULT_L2CAP_BUFFER_SIZE,
            read_chunk_size: DEFAULT_L2CAP_READ_CHUNK_SIZE,
            linger_timeout: Some(seconds(DEFAULT_L2CAP_LINGER_SECS)),
            encryption: L2capEncryption::Insecure,
        }
    }
}

/// Whatever sizes are configured, the buffer holds at least one read, and
/// neither is empty.
pub proof fn law_buffer_holds_one_read(config: L2capConfig)
    ensures
        config.buffer() >= config.chunk(),
        config.chunk() >= MIN_L2CAP_READ_CHUNK_SIZE,
        config.buffer() >= MIN_L2CAP_BUFFER_SIZE,
        config.buffer() >= config.buffer_size,
        config.chunk() >= config.read_chunk_size,
{
}

/// Why an L2CAP channel stopped carrying data.
///
/// Anything other than [`Closed`](Self::Closed) also surfaces from reads as an
/// error rather than a clean end-of-stream, so a dropped link is not mistaken
/// for the peer politely hanging up.
#[derive(Debug, Clone, PartialEq, Eq)]
#[non_exhaustive]
pub enum L2capCloseReason {
    /// Either end closed the channel deliberately. Reads report EOF.
    Closed,
    /// The underlying ACL connection went away.
    LinkLost,
    /// The platform transport reported an error.
    TransportError(String),
}

/// The kind of an I/O error.
#[derive(Debug, Clone, Copy, PartialEq, Eq, Structural)]
pub enum IoErrorKind {
    ConnectionReset,
    Other,
}

/// An I/O error that a read reports.
#[derive(Debug, Clone, PartialEq, Eq)]
pub struct IoError {
    pub kind: IoErrorKind,
    pub message: String,
}

impl L2capCloseReason {
    /// Convert to the I/O error that a read should report, or `None` for
    /// a clean close (which stays an end-of-stream).
    pub fn as_io_error(&self) -> (error: Option<IoError>)
        ensures
            match self {
                L2capCloseReason::Closed => error is None,
                L2capCloseReason::LinkLost => error matches Some(e) && e.kind
                    == IoErrorKind::ConnectionReset && e.message@ == "L2CAP link lost"@,
                L2capCloseReason::TransportError(msg) => error matches Some(e) && e.kind
                    == IoErrorKind::Other && e.message@ == "L2CAP transport error: "@ + msg@,
            },
    {
        match self {
            L2capCloseReason::Closed => None,
            L2capCloseReason::LinkLost => Some(
                IoError {
                    kind: IoErrorKind::ConnectionReset,
                    message: "L2CAP link lost".to_owned(),
                },
            ),
            L2capCloseReason::TransportError(msg) => Some(
                IoError {
                    kind: IoErrorKind::Other,
                    message: "L2CAP transport error: ".to_owned().concat(msg.as_str()),
                },
            ),
        }
    }
}

/// The read chunk is what is configured or its floor, whichever is larger, and
/// the buffer the largest of what is configured, its floor and one read.
pub proof fn law_sizes_are_raised_no_further_than_needed(config: L2capConfig)
    ensures
        config.chunk() == config.read_chunk_size || config.chunk() == 64,
        config.chunk() >= config.read_chunk_size && config.chunk() >= 64,
        config.buffer() == config.buffer_size || config.buffer() == 1024 || config.buffer()
            == config.chunk(),
        config.buffer() >= config.buffer_size && config.buffer() >= 1024,
        config.buffer() >= config.chunk(),
        config.read_chunk_size >= 64 && config.buffer_size >= 1024 && config.buffer_size
            >= config.read_chunk_size ==> config.chunk() == config.read_chunk_size
            && config.buffer() == config.buffer_size,
{
}

/// Demanding authentication is stronger than demanding encryption, which is
/// stronger than demanding nothing.
pub proof fn law_security_is_ordered()
    ensures
        L2capEncryption::Insecure.strength() == 0,
        L2capEncryption::Insecure.strength() < L2capEncryption::RequireEncryption.strength(),
        L2capEncryption::RequireEncryption.strength()
            < L2capEncryption::RequireAuthentication.strength(),
{
}

} // verus!
