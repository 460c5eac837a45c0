//! Importing images through skopeo's image proxy.
//!
//! [`open_skopeo_varlink`] starts the [`Handshake`] that ends with a socket that
//! speaks the `org.composefs.Oci` varlink protocol, and
//! [`import_via_skopeo_proxy`] the import of an image over it.
use vstd::prelude::*;
use vstd::string::*;
use vstd::utf8::*;

use crate::import;
use crate::import::{ImageImport, Import, ImportLayer, MetadataSource};
use crate::resolve;
use crate::text;
use crate::varlink_types::GetLayerParams;
use crate::version;
use crate::version::{Version, VersionCheck};

verus! {

/// The largest message of the proxy, in bytes.
pub const MAX_MSG_SIZE: usize = 32768;

/// A method of the proxy.
#[derive(Debug, Clone, Copy, PartialEq, Eq, Structural)]
pub enum ProxyMethod {
    /// Says which version of the protocol the proxy speaks.
    Initialize,
    /// Opens an image.
    OpenImage,
    /// Opens a varlink socket for the image.
    OpenVarlinkSocket,
}

impl ProxyMethod {
    /// The name of the method.
    pub open spec fn name_text(self) -> Seq<char> {
        match self {
            ProxyMethod::Initialize => "Initialize"@,
            ProxyMethod::OpenImage => "OpenImage"@,
            ProxyMethod::OpenVarlinkSocket => "OpenVarlinkSocket"@,
        }
    }

    /// The name of the method.
    pub fn name(&self) -> (name: &'static str)
        ensures
            name@ == self.name_text(),
    {
        match self {
            ProxyMethod::Initialize => "Initialize",
            ProxyMethod::OpenImage => "OpenImage",
            ProxyMethod::OpenVarlinkSocket => "OpenVarlinkSocket",
        }
    }
}

/// What the proxy replied to a call.
#[derive(Debug)]
pub struct ProxyReply<S = String> {
    /// Whether the call succeeded.
    pub success: bool,
    /// Why it did not.
    pub error: S,
    /// What it returned, if that is a string, or else what is wrong with it.
    pub value: Result<S, S>,
    /// Whether a file descriptor came with it.
    pub has_fd: bool,
}

impl View for ProxyReply<String> {
    type V = ProxyReply<Seq<char>>;

    open spec fn view(&self) -> ProxyReply<Seq<char>> {
        ProxyReply {
            success: self.success,
            error: self.error@,
            value: match self.value {
                Ok(v) => Ok(v@),
                Err(e) => Err(e@),
            },
            has_fd: self.has_fd,
        }
    }
}

impl ProxyReply<Seq<char>> {
    /// Whether the reply came in one message.
    pub open spec fn fits(self) -> bool {
        self.value matches Ok(v) ==> v.len() <= MAX_MSG_SIZE
    }
}

/// Why there is no varlink socket.
#[derive(Debug)]
pub enum HandshakeError<S = String> {
    /// A call failed.
    CallFailed {
        /// The method.
        method: ProxyMethod,
        /// What the proxy said.
        error: S,
    },
    /// The protocol version is not a string.
    VersionNotAString {
        /// What is wrong with it.
        error: S,
    },
    /// The protocol version is not a version.
    InvalidVersion {
        /// What is wrong with it.
        error: S,
    },
    /// The protocol version is too old.
    VersionTooOld {
        /// The version.
        version: S,
    },
    /// No file descriptor was received.
    NoFd,
}

impl View for HandshakeError<String> {
    type V = HandshakeError<Seq<char>>;

    open spec fn view(&self) -> HandshakeError<Seq<char>> {
        match self {
            HandshakeError::CallFailed { method, error } => HandshakeError::CallFailed {
                method: *method,
                error: error@,
            },
            HandshakeError::VersionNotAString { error } => HandshakeError::VersionNotAString {
                error: error@,
            },
            HandshakeError::InvalidVersion { error } => HandshakeError::InvalidVersion {
                error: error@,
            },
            HandshakeError::VersionTooOld { version } => HandshakeError::VersionTooOld {
                version: version@,
            },
            HandshakeError::NoFd => HandshakeError::NoFd,
        }
    }
}

impl Clone for HandshakeError {
    fn clone(&self) -> (copy: Self)
        ensures
            copy@ == self@,
    {
        match self {
            HandshakeError::CallFailed { method, error } => HandshakeError::CallFailed {
                method: *method,
                error: error.clone(),
            },
            HandshakeError::VersionNotAString { error } => HandshakeError::VersionNotAString {
                error: error.clone(),
            },
            HandshakeError::InvalidVersion { error } => HandshakeError::InvalidVersion {
                error: error.clone(),
            },
            HandshakeError::VersionTooOld { version } => HandshakeError::VersionTooOld {
                version: version.clone(),
            },
            HandshakeError::NoFd => HandshakeError::NoFd,
        }
    }
}

impl HandshakeError<Seq<char>> {
    /// What the error says.
    pub open spec fn text(self) -> Seq<char> {
        match self {
            HandshakeError::CallFailed { method, error } => "skopeo proxy "@ + method.name_text()
                + " failed: "@ + error,
            HandshakeError::VersionNotAString { error } => error,
            HandshakeError::InvalidVersion { error } => error,
            HandshakeError::VersionTooOld { version } => "skopeo proxy version "@ + version
                + " too old, need >=0.2.9 for OpenVarlinkSocket"@,
            HandshakeError::NoFd => "OpenVarlinkSocket did not return an fd"@,
        }
    }
}

impl HandshakeError {
    /// What the error says.
    pub fn message(&self) -> (message: String)
        ensures
            message@ == self@.text(),
    {
        match self {
            HandshakeError::CallFailed { method, error } => {
                let mut out: String = "skopeo proxy ".to_owned();
                out.append(method.name());
                out.append(" failed: ");
                out.append(error.as_str());
                out
            },
            HandshakeError::VersionNotAString { error } => error.clone(),
            HandshakeError::InvalidVersion { error } => error.clone(),
            HandshakeError::VersionTooOld { version } => {
                let mut out: String = "skopeo proxy version ".to_owned();
                out.append(version.as_str());
                out.append(" too old, need >=0.2.9 for OpenVarlinkSocket");
                out
            },
            HandshakeError::NoFd => "OpenVarlinkSocket did not return an fd".to_owned(),
        }
    }
}

/// What a handshake waits for, or how it ended.
#[derive(Debug)]
pub enum HandshakeAction<S = String, L = Vec<String>> {
    /// Call a method of the proxy.
    Call {
        /// The method.
        method: ProxyMethod,
        /// Its arguments.
        args: L,
    },
    /// The file descriptor received last is the varlink socket.
    Connected,
    /// There is no varlink socket.
    Fail(HandshakeError<S>),
}

impl View for HandshakeAction<String, Vec<String>> {
    type V = HandshakeAction<Seq<char>, Seq<Seq<char>>>;

    open spec fn view(&self) -> HandshakeAction<Seq<char>, Seq<Seq<char>>> {
        match self {
            HandshakeAction::Call { method, args } => HandshakeAction::Call {
                method: *method,
                args: text::texts(args@),
            },
            HandshakeAction::Connected => HandshakeAction::Connected,
            HandshakeAction::Fail(e) => HandshakeAction::Fail(e@),
        }
    }
}

/// Where a handshake stands.
#[derive(Debug)]
pub enum HandshakePhase<S> {
    /// A method has been called.
    Calling(ProxyMethod),
    /// The socket is there.
    Connected,
    /// There is no socket.
    Failed(HandshakeError<S>),
}

/// The abstract state of a handshake.
pub struct Shake {
    /// The image.
    pub image_ref: Seq<char>,
    /// What the handshake waits for.
    pub phase: HandshakePhase<Seq<char>>,
}

/// Checks a reply to `Initialize`.
pub open spec fn version_error(value: Result<Seq<char>, Seq<char>>) -> Option<
    HandshakeError<Seq<char>>,
> {
    match value {
        Err(error) => Some(HandshakeError::VersionNotAString { error }),
        Ok(v) => match version::checked(v) {
            VersionCheck::Supported => None,
            VersionCheck::TooOld => Some(HandshakeError::VersionTooOld { version: v }),
            VersionCheck::Invalid { error } => Some(HandshakeError::InvalidVersion { error }),
        },
    }
}

impl Shake {
    /// A handshake that is about to begin.
    pub open spec fn start(image_ref: Seq<char>) -> Shake {
        Shake { image_ref, phase: HandshakePhase::Calling(ProxyMethod::Initialize) }
    }

    /// The handshake in another phase.
    pub open spec fn to(self, phase: HandshakePhase<Seq<char>>) -> Shake {
        Shake { phase, ..self }
    }

    /// The handshake after a reply. Once it has ended, replies change nothing.
    pub open spec fn after(self, reply: ProxyReply<Seq<char>>) -> Shake {
        match self.phase {
            HandshakePhase::Calling(method) => if !reply.success {
                self.to(
                    HandshakePhase::Failed(
                        HandshakeError::CallFailed { method, error: reply.error },
                    ),
                )
            } else {
                match method {
                    ProxyMethod::Initialize => match version_error(reply.value) {
                        Some(e) => self.to(HandshakePhase::Failed(e)),
                        None => self.to(HandshakePhase::Calling(ProxyMethod::OpenImage)),
                    },
                    ProxyMethod::OpenImage => self.to(
                        HandshakePhase::Calling(ProxyMethod::OpenVarlinkSocket),
                    ),
                    ProxyMethod::OpenVarlinkSocket => if reply.has_fd {
                        self.to(HandshakePhase::Connected)
                    } else {
                        self.to(HandshakePhase::Failed(HandshakeError::NoFd))
                    },
                }
            },
            _ => self,
        }
    }

    /// What the handshake waits for, or how it ended.
    pub open spec fn action(self) -> HandshakeAction<Seq<char>, Seq<Seq<char>>> {
        match self.phase {
            HandshakePhase::Calling(method) => HandshakeAction::Call {
                method,
                args: if method == ProxyMethod::OpenImage {
                    seq!["containers-storage:"@ + self.image_ref]
                } else {
                    Seq::empty()
                },
            },
            HandshakePhase::Connected => HandshakeAction::Connected,
            HandshakePhase::Failed(e) => HandshakeAction::Fail(e),
        }
    }
}

/// There is a socket in the end exactly if all three calls succeeded, the proxy
/// speaks a version that is new enough, and the last call came with a file
/// descriptor.
pub proof fn handshake_needs_every_step(
    image_ref: Seq<char>,
    initialized: ProxyReply<Seq<char>>,
    opened: ProxyReply<Seq<char>>,
    socket: ProxyReply<Seq<char>>,
)
    ensures
        Shake::start(image_ref).after(initialized).after(opened).after(socket).phase is Connected
            <==> {
            &&& initialized.success && opened.success && socket.success
            &&& initialized.value matches Ok(v) && version::is_version_at_least(
                v,
                version::oldest(),
            )
            &&& socket.has_fd
        },
{
}

/// The whole conversation, whatever is replied: which method is called with which
/// arguments after which replies, and which failure ends it.
pub proof fn handshake_conversation(
    image_ref: Seq<char>,
    initialized: ProxyReply<Seq<char>>,
    opened: ProxyReply<Seq<char>>,
    socket: ProxyReply<Seq<char>>,
    late: ProxyReply<Seq<char>>,
)
    ensures
        ({
            let start = Shake::start(image_ref);
            let one = start.after(initialized);
            let two = one.after(opened);
            let three = two.after(socket);
            let new_enough = initialized.value matches Ok(v) && exists|w: Version<Seq<char>>|
                {
                    &&& #[trigger] w.valid()
                    &&& w.text() == v
                    &&& w.pre.len() == 0
                    &&& w.major > 0 || w.minor > 2 || (w.minor == 2 && w.patch >= 9)
                };
            &&& start.action() matches HandshakeAction::Call { method, args } && method
                == ProxyMethod::Initialize && args.len() == 0
            &&& if !initialized.success {
                one.action() == HandshakeAction::<Seq<char>, Seq<Seq<char>>>::Fail(
                    HandshakeError::CallFailed {
                        method: ProxyMethod::Initialize,
                        error: initialized.error,
                    },
                ) && one.after(late) == one
            } else if !new_enough {
                one.action() is Fail && one.after(late) == one
            } else {
                &&& one.action() matches HandshakeAction::Call { method, args } && method
                    == ProxyMethod::OpenImage && args.len() == 1 && args[0]
                    == "containers-storage:"@ + image_ref
                &&& if !opened.success {
                    two.action() == HandshakeAction::<Seq<char>, Seq<Seq<char>>>::Fail(
                        HandshakeError::CallFailed {
                            method: ProxyMethod::OpenImage,
                            error: opened.error,
                        },
                    ) && two.after(late) == two
                } else {
                    &&& two.action() matches HandshakeAction::Call { method, args } && method
                        == ProxyMethod::OpenVarlinkSocket && args.len() == 0
                    &&& three.after(late) == three
                    &&& if !socket.success {
                        three.action() == HandshakeAction::<Seq<char>, Seq<Seq<char>>>::Fail(
                            HandshakeError::CallFailed {
                                method: ProxyMethod::OpenVarlinkSocket,
                                error: socket.error,
                            },
                        )
                    } else if socket.has_fd {
                        three.action() is Connected
                    } else {
                        three.action() == HandshakeAction::<Seq<char>, Seq<Seq<char>>>::Fail(
                            HandshakeError::NoFd,
                        )
                    }
                }
            }
        }),
{
    if let Ok(v) = initialized.value {
        version::check_is_by_number(v);
    }
}

/// Which failure a successful reply to `Initialize` leads to, if any: what is not a
/// string, what is not a version and what is too old are told apart, and the text that
/// goes with each is passed on.
pub proof fn unusable_versions_are_told_apart(value: Result<Seq<char>, Seq<char>>)
    ensures
        match value {
            Err(error) => version_error(value) == Some(
                HandshakeError::<Seq<char>>::VersionNotAString { error },
            ),
            Ok(v) => if exists|w: Version<Seq<char>>| #[trigger] w.valid() && w.text() == v {
                version_error(value) is None || version_error(value) == Some(
                    HandshakeError::<Seq<char>>::VersionTooOld { version: v },
                )
            } else {
                version_error(value) == Some(
                    HandshakeError::<Seq<char>>::InvalidVersion {
                        error: version::semver_complaint(v),
                    },
                )
            },
        },
{
    if let Ok(v) = value {
        version::check_is_by_number(v);
    }
}

/// The methods go by these names.
pub proof fn methods_are_named()
    ensures
        ProxyMethod::Initialize.name_text() == "Initialize"@,
        ProxyMethod::OpenImage.name_text() == "OpenImage"@,
        ProxyMethod::OpenVarlinkSocket.name_text() == "OpenVarlinkSocket"@,
{
}

/// A handshake under way.
#[derive(Debug)]
pub struct Handshake {
    image_ref: String,
    phase: HandshakePhase<String>,
}

impl View for Handshake {
    type V = Shake;

    closed spec fn view(&self) -> Shake {
        Shake {
            image_ref: self.image_ref@,
            phase: match self.phase {
                HandshakePhase::Calling(method) => HandshakePhase::Calling(method),
                HandshakePhase::Connected => HandshakePhase::Connected,
                HandshakePhase::Failed(e) => HandshakePhase::Failed(e@),
            },
        }
    }
}

/// Open the given image with skopeo's image proxy, and call `OpenVarlinkSocket`
/// to get a varlink connection.
pub fn open_skopeo_varlink(image_ref: &str) -> (handshake: Handshake)
    ensures
        handshake@ == Shake::start(image_ref@),
{
    Handshake {
        image_ref: image_ref.to_owned(),
        phase: HandshakePhase::Calling(ProxyMethod::Initialize),
    }
}

fn check_proxy_version(value: Result<String, String>) -> (r: Result<(), HandshakeError>)
    requires
        value matches Ok(v) ==> v@.len() <= MAX_MSG_SIZE,
    ensures
        ({
            let model = match value {
                Ok(v) => Ok(v@),
                Err(e) => Err(e@),
            };
            match r {
                Ok(()) => version_error(model) is None,
                Err(e) => version_error(model) == Some(e@),
            }
        }),
{
    match value {
        Err(error) => Err(HandshakeError::VersionNotAString { error }),
        Ok(v) => match version::check_version(v.as_str()) {
            VersionCheck::Supported => Ok(()),
            VersionCheck::TooOld => Err(HandshakeError::VersionTooOld { version: v }),
            VersionCheck::Invalid { error } => Err(HandshakeError::InvalidVersion { error }),
        },
    }
}

impl Handshake {
    /// What the handshake waits for.
    pub fn action(&self) -> (action: HandshakeAction)
        ensures
            action@ == self@.action(),
    {
        match &self.phase {
            HandshakePhase::Calling(method) => {
                let mut args: Vec<String> = Vec::new();
                assert(text::texts(args@) =~= Seq::empty());
                if *method == ProxyMethod::OpenImage {
                    args.push(text::join2("containers-storage:", self.image_ref.as_str()));
                    assert(text::texts(args@) =~= seq!["containers-storage:"@ + self@.image_ref]);
                }
                HandshakeAction::Call { method: *method, args }
            },
            HandshakePhase::Connected => HandshakeAction::Connected,
            HandshakePhase::Failed(e) => HandshakeAction::Fail(e.clone()),
        }
    }

    /// Takes in the reply to the call that was made.
    pub fn resume(self, reply: ProxyReply) -> (next: Handshake)
        requires
            reply@.fits(),
        ensures
            next@ == self@.after(reply@),
    {
        let Handshake { image_ref, phase } = self;
        let phase: HandshakePhase<String> = match phase {
            HandshakePhase::Calling(method) => if !reply.success {
                HandshakePhase::Failed(HandshakeError::CallFailed { method, error: reply.error })
            } else {
                match method {
                    ProxyMethod::Initialize => match check_proxy_version(reply.value) {
                        Err(e) => HandshakePhase::Failed(e),
                        Ok(()) => HandshakePhase::Calling(ProxyMethod::OpenImage),
                    },
                    ProxyMethod::OpenImage => HandshakePhase::Calling(
                        ProxyMethod::OpenVarlinkSocket,
                    ),
                    ProxyMethod::OpenVarlinkSocket => if reply.has_fd {
                        HandshakePhase::Connected
                    } else {
                        HandshakePhase::Failed(HandshakeError::NoFd)
                    },
                }
            },
            other => other,
        };
        Handshake { image_ref, phase }
    }
}

/// The file descriptors of some messages, one message after another.
pub open spec fn all_fds<F>(messages: Seq<Vec<F>>) -> Seq<F>
    decreases messages.len(),
{
    if messages.len() == 0 {
        Seq::empty()
    } else {
        messages.first()@ + all_fds(messages.drop_first())
    }
}

/// Messages come one after another: the file descriptors of two runs of messages are
/// those of the first and then those of the second, and one message has its own.
pub proof fn fds_come_message_by_message<F>(xs: Seq<Vec<F>>, ys: Seq<Vec<F>>, message: Vec<F>)
    ensures
        all_fds(Seq::<Vec<F>>::empty()) == Seq::<F>::empty(),
        all_fds(seq![message]) == message@,
        all_fds(xs + ys) == all_fds(xs) + all_fds(ys),
    decreases xs.len(),
{
    reveal_with_fuel(all_fds, 2);
    assert(seq![message].drop_first() =~= Seq::empty());
    assert(all_fds(seq![message]) =~= message@);
    if xs.len() == 0 {
        assert(xs + ys =~= ys);
        assert(all_fds(xs + ys) =~= all_fds(xs) + all_fds(ys));
    } else {
        fds_come_message_by_message(xs.drop_first(), ys, message);
        assert((xs + ys).drop_first() =~= xs.drop_first() + ys);
        assert((xs + ys).first() == xs.first());
        assert(all_fds(xs + ys) =~= all_fds(xs) + all_fds(ys));
    }
}

/// The first file descriptor that came with a reply.
pub fn received_fd<F>(messages: Vec<Vec<F>>) -> (fd: Option<F>)
    ensures
        match fd {
            Some(f) => all_fds(messages@).len() > 0 && f == all_fds(messages@)[0],
            None => all_fds(messages@).len() == 0,
        },
{
    let ghost all = messages@;
    assert(all.skip(0) =~= all);
    for message in it: messages
        invariant
            it.seq() == all,
            all_fds(all) == all_fds(all.skip(it.index() as int)),
    {
        let ghost rest = all.skip(it.index() as int);
        assert(rest.first() == message);
        assert(rest.drop_first() =~= all.skip(it.index() as int + 1));
        let mut message = message;
        if message.len() > 0 {
            return Some(message.remove(0));
        }
        assert(all_fds(rest) =~= all_fds(rest.drop_first()));
    }
    assert(all.skip(all.len() as int).len() == 0);
    None
}

/// Why an image could not be imported through the proxy.
#[derive(Debug)]
pub enum SkopeoImportError<S = String> {
    /// The config has a diff-id that is not a digest.
    InvalidDiffId {
        /// The diff-id.
        diff_id: S,
    },
    /// The config does not have as many diff-ids as the storage has layers.
    LayerCountMismatch {
        /// How many diff-ids there are in the config.
        in_config: usize,
        /// How many storage layer IDs there are.
        in_storage: usize,
    },
}

impl View for SkopeoImportError<String> {
    type V = SkopeoImportError<Seq<char>>;

    open spec fn view(&self) -> SkopeoImportError<Seq<char>> {
        match self {
            SkopeoImportError::InvalidDiffId { diff_id } => SkopeoImportError::InvalidDiffId {
                diff_id: diff_id@,
            },
            SkopeoImportError::LayerCountMismatch {
                in_config,
                in_storage,
            } => SkopeoImportError::LayerCountMismatch {
                in_config: *in_config,
                in_storage: *in_storage,
            },
        }
    }
}

impl SkopeoImportError<Seq<char>> {
    /// What the error says.
    pub open spec fn text(self) -> Seq<char> {
        match self {
            SkopeoImportError::InvalidDiffId { .. } => "parsing diff_id"@,
            SkopeoImportError::LayerCountMismatch {
                in_config,
                in_storage,
            } => "layer count mismatch: "@ + text::decimal_text(in_config as nat)
                + " diff_ids in config, "@ + text::decimal_text(in_storage as nat)
                + " storage layer IDs from GetImage"@,
        }
    }
}

impl SkopeoImportError {
    /// What the error says.
    pub fn message(&self) -> (message: String)
        ensures
            message@ == self@.text(),
    {
        match self {
            SkopeoImportError::InvalidDiffId { .. } => "parsing diff_id".to_owned(),
            SkopeoImportError::LayerCountMismatch { in_config, in_storage } => {
                let mut out: String = "layer count mismatch: ".to_owned();
                out.append(text::decimal(*in_config as u64).as_str());
                out.append(" diff_ids in config, ");
                out.append(text::decimal(*in_storage as u64).as_str());
                out.append(" storage layer IDs from GetImage");
                out
            },
        }
    }
}

/// How a layer is imported through the proxy: under its diff-id, and asked for by
/// its ID in containers-storage.
pub open spec fn proxy_layers(diff_ids: Seq<Seq<char>>, storage_layer_ids: Seq<Seq<char>>) -> Seq<
    (Seq<char>, GetLayerParams<Seq<char>>),
> {
    Seq::new(
        diff_ids.len(),
        |i: int|
            (
                diff_ids[i],
                GetLayerParams { diff_id: Some(storage_layer_ids[i]), storage: None },
            ),
    )
}

/// Through the proxy, the layer in every position is kept under the diff-id in that
/// position and asked for by the storage layer ID in that position; so layers with
/// different storage layer IDs are asked for differently.
pub proof fn proxy_layers_are_paired_by_position(
    diff_ids: Seq<Seq<char>>,
    storage_layer_ids: Seq<Seq<char>>,
    j: int,
    k: int,
)
    requires
        diff_ids.len() == storage_layer_ids.len(),
        0 <= j < diff_ids.len(),
        0 <= k < diff_ids.len(),
    ensures
        ({
            let layers = proxy_layers(diff_ids, storage_layer_ids);
            &&& layers.len() == diff_ids.len()
            &&& layers[k].0 == diff_ids[k]
            &&& layers[k].1.diff_id == Some(storage_layer_ids[k])
            &&& layers[k].1.storage is None
            &&& storage_layer_ids[j] != storage_layer_ids[k] ==> layers[j].1 != layers[k].1
            &&& diff_ids[j] != diff_ids[k] ==> layers[j].0 != layers[k].0
        }),
{
}

/// Starts the import of an image over the varlink socket of the proxy, given its
/// diff-ids and what `GetImage` replied.
///
/// Every diff-id must be a digest, and there must be as many of them as there are
/// layers in storage.
pub fn import_via_skopeo_proxy(
    diff_ids: &Vec<String>,
    storage_layer_ids: &Vec<String>,
    manifest: &str,
    config: &str,
    reference: Option<String>,
    zerocopy: bool,
) -> (r: Result<ImageImport, SkopeoImportError>)
    ensures
        match r {
            Ok(i) => {
                &&& resolve::first_invalid(text::texts(diff_ids@)) is None
                &&& diff_ids@.len() == storage_layer_ids@.len()
                &&& i@ == Import::start(
                    proxy_layers(text::texts(diff_ids@), text::texts(storage_layer_ids@)),
                    text::opt_text(reference),
                    zerocopy,
                    MetadataSource::Given {
                        manifest: encode_utf8(manifest@),
                        config: encode_utf8(config@),
                    },
                )
                &&& forall|k: int| 0 <= k < diff_ids@.len() ==> (#[trigger] i@.layers[k]).1.valid()
                &&& i@.layers.len() == diff_ids@.len()
                &&& forall|k: int|
                    0 <= k < diff_ids@.len() ==> {
                        let (diff_id, params) = #[trigger] i@.layers[k];
                        &&& diff_id == diff_ids@[k]@
                        &&& params.diff_id == Some(storage_layer_ids@[k]@)
                        &&& params.storage is None
                    }
                &&& i@.zerocopy == zerocopy
                &&& i@.reference == text::opt_text(reference)
                &&& i@.metadata == (MetadataSource::<Seq<char>, Seq<u8>>::Given {
                    manifest: encode_utf8(manifest@),
                    config: encode_utf8(config@),
                })
            },
            Err(e) => match resolve::first_invalid(text::texts(diff_ids@)) {
                Some(diff_id) => e@ == (SkopeoImportError::<Seq<char>>::InvalidDiffId { diff_id }),
                None => {
                    &&& diff_ids@.len() != storage_layer_ids@.len()
                    &&& e@ == (SkopeoImportError::<Seq<char>>::LayerCountMismatch {
                        in_config: diff_ids@.len() as usize,
                        in_storage: storage_layer_ids@.len() as usize,
                    })
                },
            },
        },
{
    let digests = match resolve::parse_diff_ids(diff_ids) {
        Ok(digests) => digests,
        Err(diff_id) => {
            return Err(SkopeoImportError::InvalidDiffId { diff_id });
        },
    };
    let in_config: usize = diff_ids.len();
    let in_storage: usize = storage_layer_ids.len();
    if in_config != in_storage {
        return Err(SkopeoImportError::LayerCountMismatch { in_config, in_storage });
    }
    let ghost wanted = proxy_layers(text::texts(diff_ids@), text::texts(storage_layer_ids@));
    let ghost texts = resolve::digest_texts(digests@);
    assert(texts == text::texts(diff_ids@));
    assert(texts.len() == diff_ids@.len());
    let mut layers: Vec<ImportLayer> = Vec::new();
    for digest in it: digests
        invariant
            texts == resolve::digest_texts(it.seq()),
            texts == text::texts(diff_ids@),
            texts.len() == diff_ids@.len() == storage_layer_ids@.len(),
            wanted == proxy_layers(text::texts(diff_ids@), text::texts(storage_layer_ids@)),
            import::layers_model(layers@) == wanted.take(it.index() as int),
    {
        let ghost before = import::layers_model(layers@);
        let k: usize = layers.len();
        assert(before.len() == k);
        assert(texts[it.index() as int] == digest@);
        layers.push(
            ImportLayer {
                diff_id: digest,
                params: GetLayerParams {
                    diff_id: Some(storage_layer_ids[k].clone()),
                    storage: None,
                },
            },
        );
        assert(import::layers_model(layers@) =~= before.push(wanted[k as int]));
        assert(import::layers_model(layers@) =~= wanted.take(it.index() as int + 1));
    }
    assert(wanted.take(wanted.len() as int) =~= wanted);
    Ok(
        ImageImport::start(
            layers,
            reference,
            zerocopy,
            MetadataSource::Given {
                manifest: manifest.as_bytes_vec(),
                config: config.as_bytes_vec(),
            },
        ),
    )
}

/// What an error says: the method that failed and why, the version that is too old, or the
/// two numbers that do not match.
pub proof fn proxy_messages_tell_what_is_wrong(
    method: ProxyMethod,
    s: Seq<char>,
    in_config: usize,
    in_storage: usize,
)
    ensures
        (HandshakeError::CallFailed { method, error: s }).text() == "skopeo proxy "@
            + method.name_text() + " failed: "@ + s,
        (HandshakeError::VersionNotAString { error: s }).text() == s,
        (HandshakeError::InvalidVersion { error: s }).text() == s,
        (HandshakeError::VersionTooOld { version: s }).text() == "skopeo proxy version "@ + s
            + " too old, need >=0.2.9 for OpenVarlinkSocket"@,
        HandshakeError::<Seq<char>>::NoFd.text() == "OpenVarlinkSocket did not return an fd"@,
        (SkopeoImportError::InvalidDiffId { diff_id: s }).text() == "parsing diff_id"@,
        (SkopeoImportError::<Seq<char>>::LayerCountMismatch { in_config, in_storage }).text()
            == "layer count mismatch: "@ + text::decimal_text(in_config as nat)
            + " diff_ids in config, "@ + text::decimal_text(in_storage as nat)
            + " storage layer IDs from GetImage"@,
{
}

/// The models of replies, actions and errors have what these have.
pub proof fn proxy_models_are_faithful(
    reply: ProxyReply,
    action: HandshakeAction,
    e: HandshakeError,
    refused: SkopeoImportError,
)
    ensures
        reply@.success == reply.success,
        reply@.error == reply.error@,
        reply@.has_fd == reply.has_fd,
        match (reply.value, reply@.value) {
            (Ok(a), Ok(b)) => b == a@,
            (Err(a), Err(b)) => b == a@,
            _ => false,
        },
        match (action, action@) {
            (
                HandshakeAction::Call { method, args },
                HandshakeAction::Call { method: m, args: a },
            ) => m == method && a == text::texts(args@),
            (HandshakeAction::Connected, HandshakeAction::Connected) => true,
            (HandshakeAction::Fail(a), HandshakeAction::Fail(b)) => b == a@,
            _ => false,
        },
        match (e, e@) {
            (
                HandshakeError::CallFailed { method, error },
                HandshakeError::CallFailed { method: m, error: x },
            ) => m == method && x == error@,
            (
                HandshakeError::VersionNotAString { error },
                HandshakeError::VersionNotAString { error: x },
            ) => x == error@,
            (
                HandshakeError::InvalidVersion { error },
                HandshakeError::InvalidVersion { error: x },
            ) => x == error@,
            (
                HandshakeError::VersionTooOld { version },
                HandshakeError::VersionTooOld { version: v },
            ) => v == version@,
            (HandshakeError::NoFd, HandshakeError::NoFd) => true,
            _ => false,
        },
        match (refused, refused@) {
            (
                SkopeoImportError::InvalidDiffId { diff_id },
                SkopeoImportError::InvalidDiffId { diff_id: d },
            ) => d == diff_id@,
            (
                SkopeoImportError::LayerCountMismatch { in_config, in_storage },
                SkopeoImportError::LayerCountMismatch { in_config: c, in_storage: s },
            ) => c == in_config && s == in_storage,
            _ => false,
        },
{
}

} // verus!
