//! The allocator's control channel as the subsystem sees it: the control
//! points with their types, the operations on them, and what comes back.
//!
//! The channel itself lives in the host: it performs an `Operation` on the
//! allocator and hands back a `Reply`. Everything here is about which
//! operations there are and how a reply is read.

use crate::error::ControlError;
use vstd::prelude::*;
use vstd::string::*;

verus! {

/// The type of the value of a control point.
#[derive(Debug, Clone, Copy, PartialEq, Eq, Structural)]
pub enum ValueType {
    Flag,
    Number,
    Text,
    Nothing,
}

/// How a control point may be used.
#[derive(Debug, Clone, Copy, PartialEq, Eq, Structural)]
pub enum AccessMode {
    ReadOnly,
    WriteOnly,
    ReadWrite,
}

impl AccessMode {
    /// Whether the mode lets a control point be read.
    pub open spec fn readable(self) -> bool {
        self == AccessMode::ReadOnly || self == AccessMode::ReadWrite
    }

    /// Whether the mode lets a control point be written.
    pub open spec fn writable(self) -> bool {
        self == AccessMode::WriteOnly || self == AccessMode::ReadWrite
    }
}

/// The control points of the allocator that the subsystem uses.
#[derive(Debug, Clone, Copy, PartialEq, Eq, Structural)]
pub enum ControlPoint {
    /// Whether the allocator was started with profiling.
    ProfilingEnabled,
    /// The runtime switch of sampling.
    ProfilingActive,
    /// The exponent of the sampling interval.
    SampleInterval,
    /// Resets what profiling has gathered; a value written to it becomes
    /// the new exponent of the sampling interval.
    ResetTrigger,
    /// Dumps a profile; a value written to it names the file.
    DumpTarget,
    /// The statistics report.
    StatsText,
}

impl ControlPoint {
    /// The type of the value of the control point.
    pub open spec fn value_type_spec(self) -> ValueType {
        match self {
            ControlPoint::ProfilingEnabled => ValueType::Flag,
            ControlPoint::ProfilingActive => ValueType::Flag,
            ControlPoint::SampleInterval => ValueType::Number,
            ControlPoint::ResetTrigger => ValueType::Number,
            ControlPoint::DumpTarget => ValueType::Text,
            ControlPoint::StatsText => ValueType::Text,
        }
    }

    /// How the control point may be used.
    pub open spec fn access_mode_spec(self) -> AccessMode {
        match self {
            ControlPoint::ProfilingEnabled => AccessMode::ReadOnly,
            ControlPoint::ProfilingActive => AccessMode::ReadWrite,
            ControlPoint::SampleInterval => AccessMode::ReadOnly,
            ControlPoint::ResetTrigger => AccessMode::WriteOnly,
            ControlPoint::DumpTarget => AccessMode::WriteOnly,
            ControlPoint::StatsText => AccessMode::ReadOnly,
        }
    }

    /// Whether the control point may be written without a value.
    pub open spec fn value_optional_spec(self) -> bool {
        self == ControlPoint::ResetTrigger || self == ControlPoint::DumpTarget
    }

    /// The type of the value of the control point.
    pub fn value_type(&self) -> (r: ValueType)
        ensures
            r == self.value_type_spec(),
    {
        match self {
            ControlPoint::ProfilingEnabled => ValueType::Flag,
            ControlPoint::ProfilingActive => ValueType::Flag,
            ControlPoint::SampleInterval => ValueType::Number,
            ControlPoint::ResetTrigger => ValueType::Number,
            ControlPoint::DumpTarget => ValueType::Text,
            ControlPoint::StatsText => ValueType::Text,
        }
    }

    /// How the control point may be used.
    pub fn access_mode(&self) -> (r: AccessMode)
        ensures
            r == self.access_mode_spec(),
    {
        match self {
            ControlPoint::ProfilingEnabled => AccessMode::ReadOnly,
            ControlPoint::ProfilingActive => AccessMode::ReadWrite,
            ControlPoint::SampleInterval => AccessMode::ReadOnly,
            ControlPoint::ResetTrigger => AccessMode::WriteOnly,
            ControlPoint::DumpTarget => AccessMode::WriteOnly,
            ControlPoint::StatsText => AccessMode::ReadOnly,
        }
    }

    /// Whether the control point may be written without a value.
    pub fn value_optional(&self) -> (r: bool)
        ensures
            r == self.value_optional_spec(),
    {
        match self {
            ControlPoint::ResetTrigger => true,
            ControlPoint::DumpTarget => true,
            _ => false,
        }
    }

    /// The key of the control point in the allocator's namespace. The
    /// statistics report has none: the allocator prints it through a call
    /// of its own.
    pub open spec fn name_spec(self) -> Option<&'static str> {
        match self {
            ControlPoint::ProfilingEnabled => Some("opt.prof"),
            ControlPoint::ProfilingActive => Some("prof.active"),
            ControlPoint::SampleInterval => Some("prof.lg_sample"),
            ControlPoint::ResetTrigger => Some("prof.reset"),
            ControlPoint::DumpTarget => Some("prof.dump"),
            ControlPoint::StatsText => None,
        }
    }

    /// The key of the control point in the allocator's namespace.
    pub fn name(&self) -> (r: Option<&'static str>)
        ensures
            r == self.name_spec(),
    {
        match self {
            ControlPoint::ProfilingEnabled => Some("opt.prof"),
            ControlPoint::ProfilingActive => Some("prof.active"),
            ControlPoint::SampleInterval => Some("prof.lg_sample"),
            ControlPoint::ResetTrigger => Some("prof.reset"),
            ControlPoint::DumpTarget => Some("prof.dump"),
            ControlPoint::StatsText => None,
        }
    }
}

/// Whether `key` is the key of a control point as the allocator takes it:
/// the name of the control point, then a zero byte.
pub open spec fn is_control_key(key: Seq<u8>) -> bool {
    exists|point: ControlPoint| #[trigger]
        point.name_spec() is Some && key == point.name_spec()->0.spec_bytes() + seq![0u8]
}

/// Resolves a key with `tikv_jemalloc_ctl::raw::name_to_mib`, into a handle
/// of two parts. The call is made only with the key of a control point:
/// such a key ends in a zero byte and has two parts with a period between
/// them, which is what the outside function asks for. Nothing is claimed
/// of the outcome: whether a key resolves depends on how the allocator was
/// built.
#[verifier::external_body]
fn resolve_key(key: &[u8]) -> (handle: Option<[usize; 2]>)
    requires
        is_control_key(key@),
{
    let mut mib = [0usize; 2];
    match tikv_jemalloc_ctl::raw::name_to_mib(key, &mut mib) {
        Ok(()) => Some(mib),
        Err(_) => None,
    }
}

/// The control points, each bound to its handle in the allocator's
/// namespace where the allocator has it. The handles are resolved once,
/// when the channel is made, and used for every operation after that.
#[derive(Debug, Clone)]
pub struct ControlChannel {
    enabled: Option<[usize; 2]>,
    active: Option<[usize; 2]>,
    sample: Option<[usize; 2]>,
    reset: Option<[usize; 2]>,
    dump: Option<[usize; 2]>,
}

impl ControlChannel {
    /// The handle of a control point, if it is bound.
    pub closed spec fn handle_spec(&self, point: ControlPoint) -> Option<[usize; 2]> {
        match point {
            ControlPoint::ProfilingEnabled => self.enabled,
            ControlPoint::ProfilingActive => self.active,
            ControlPoint::SampleInterval => self.sample,
            ControlPoint::ResetTrigger => self.reset,
            ControlPoint::DumpTarget => self.dump,
            ControlPoint::StatsText => None,
        }
    }

    /// Resolves the key of a control point, where it has one.
    fn resolve(point: ControlPoint) -> (handle: Option<[usize; 2]>)
        ensures
            point.name_spec() is None ==> handle is None,
    {
        match point.name() {
            Some(name) => {
                let mut key: Vec<u8> = Vec::new();
                crate::text::push_text(&mut key, name);
                key.push(0);
                assert(key@ =~= name.spec_bytes() + seq![0u8]);
                assert(point.name_spec() is Some);
                resolve_key(key.as_slice())
            },
            None => None,
        }
    }

    /// The channel of the given handles, one for each control point that
    /// has a key: profiling enabled, profiling active, sample interval,
    /// reset trigger and dump target, in this order.
    pub fn from_handles(
        enabled: Option<[usize; 2]>,
        active: Option<[usize; 2]>,
        sample: Option<[usize; 2]>,
        reset: Option<[usize; 2]>,
        dump: Option<[usize; 2]>,
    ) -> (r: ControlChannel)
        ensures
            r.handle_spec(ControlPoint::ProfilingEnabled) == enabled,
            r.handle_spec(ControlPoint::ProfilingActive) == active,
            r.handle_spec(ControlPoint::SampleInterval) == sample,
            r.handle_spec(ControlPoint::ResetTrigger) == reset,
            r.handle_spec(ControlPoint::DumpTarget) == dump,
            r.handle_spec(ControlPoint::StatsText) is None,
    {
        ControlChannel { enabled, active, sample, reset, dump }
    }

    /// Binds the control points: resolves the key of each in the
    /// allocator's namespace. One that the allocator does not have stays
    /// unbound, and every operation on it is unavailable; the statistics
    /// report has no key and is never bound.
    pub fn bind() -> (r: ControlChannel)
        ensures
            r.handle_spec(ControlPoint::StatsText) is None,
    {
        ControlChannel::from_handles(
            ControlChannel::resolve(ControlPoint::ProfilingEnabled),
            ControlChannel::resolve(ControlPoint::ProfilingActive),
            ControlChannel::resolve(ControlPoint::SampleInterval),
            ControlChannel::resolve(ControlPoint::ResetTrigger),
            ControlChannel::resolve(ControlPoint::DumpTarget),
        )
    }

    /// A channel with no control point bound.
    pub fn unbound() -> (r: ControlChannel)
        ensures
            forall|point: ControlPoint| r.handle_spec(point) is None,
    {
        ControlChannel::from_handles(None, None, None, None, None)
    }

    /// The handle of a control point; a control point that is not bound is
    /// unavailable.
    pub fn handle(&self, point: ControlPoint) -> (r: Result<[usize; 2], ControlError>)
        ensures
            r == match self.handle_spec(point) {
                Some(handle) => Ok::<[usize; 2], ControlError>(handle),
                None => Err::<[usize; 2], ControlError>(ControlError::Unavailable),
            },
    {
        let handle = match point {
            ControlPoint::ProfilingEnabled => self.enabled,
            ControlPoint::ProfilingActive => self.active,
            ControlPoint::SampleInterval => self.sample,
            ControlPoint::ResetTrigger => self.reset,
            ControlPoint::DumpTarget => self.dump,
            ControlPoint::StatsText => None,
        };
        match handle {
            Some(handle) => Ok(handle),
            None => Err(ControlError::Unavailable),
        }
    }
}

/// What the allocator says of a flag: one byte, zero or one. Any other
/// byte is no flag.
pub fn flag_from_byte(byte: u8) -> (r: Result<bool, ControlError>)
    ensures
        r == if byte == 0 {
            Ok::<bool, ControlError>(false)
        } else if byte == 1 {
            Ok::<bool, ControlError>(true)
        } else {
            Err::<bool, ControlError>(ControlError::TypeMismatch)
        },
{
    if byte == 0 {
        Ok(false)
    } else if byte == 1 {
        Ok(true)
    } else {
        Err(ControlError::TypeMismatch)
    }
}

/// Checks the size of a value that the allocator handed back against the
/// size of the type that was asked for; another size is a type mismatch.
pub fn check_value_size(expected: usize, got: usize) -> (r: Result<(), ControlError>)
    ensures
        r == if expected == got {
            Ok::<(), ControlError>(())
        } else {
            Err::<(), ControlError>(ControlError::TypeMismatch)
        },
{
    if expected == got {
        Ok(())
    } else {
        Err(ControlError::TypeMismatch)
    }
}

/// Whether a control point may be read as a value of type `wanted`.
pub open spec fn read_permitted(point: ControlPoint, wanted: ValueType) -> bool {
    point.access_mode_spec().readable() && wanted == point.value_type_spec()
}

/// Whether a value of type `given` may be written to a control point.
/// Nothing at all may be written where the value is optional.
pub open spec fn write_permitted(point: ControlPoint, given: ValueType) -> bool {
    point.access_mode_spec().writable() && (given == point.value_type_spec() || (given
        == ValueType::Nothing && point.value_optional_spec()))
}

/// Checks a read before it reaches the allocator: a control point that
/// cannot be read, or a value of another type than the control point has,
/// is a type mismatch.
pub fn check_read(point: ControlPoint, wanted: ValueType) -> (r: Result<(), ControlError>)
    ensures
        r == if read_permitted(point, wanted) {
            Ok::<(), ControlError>(())
        } else {
            Err::<(), ControlError>(ControlError::TypeMismatch)
        },
{
    let mode = point.access_mode();
    if (mode == AccessMode::ReadOnly || mode == AccessMode::ReadWrite) && wanted
        == point.value_type() {
        Ok(())
    } else {
        Err(ControlError::TypeMismatch)
    }
}

/// Checks a write before it reaches the allocator: a control point that
/// cannot be written, or a value of another type than the control point
/// takes, is a type mismatch.
pub fn check_write(point: ControlPoint, given: ValueType) -> (r: Result<(), ControlError>)
    ensures
        r == if write_permitted(point, given) {
            Ok::<(), ControlError>(())
        } else {
            Err::<(), ControlError>(ControlError::TypeMismatch)
        },
{
    let mode = point.access_mode();
    let writable = mode == AccessMode::WriteOnly || mode == AccessMode::ReadWrite;
    let fits = given == point.value_type() || (given == ValueType::Nothing
        && point.value_optional());
    if writable && fits {
        Ok(())
    } else {
        Err(ControlError::TypeMismatch)
    }
}

/// What the allocator's status code says: zero is success, anything else
/// is the failure with that code.
pub fn check_status(code: i32) -> (r: Result<(), ControlError>)
    ensures
        r == if code == 0 {
            Ok::<(), ControlError>(())
        } else {
            Err::<(), ControlError>(ControlError::NativeCode(code))
        },
{
    if code == 0 {
        Ok(())
    } else {
        Err(ControlError::NativeCode(code))
    }
}

/// Whether a path can name the dump file: the allocator takes it as a
/// string that ends at the first zero byte, so it must hold none.
pub open spec fn is_dump_path(path: Seq<u8>) -> bool {
    forall|i: int| 0 <= i < path.len() ==> #[trigger] path[i] != 0
}

/// Checks the path of a dump file; one with a zero byte in it is no value
/// of the type that the dump target takes.
pub fn check_dump_path(path: &str) -> (r: Result<(), ControlError>)
    ensures
        r == if is_dump_path(path.spec_bytes()) {
            Ok::<(), ControlError>(())
        } else {
            Err::<(), ControlError>(ControlError::TypeMismatch)
        },
{
    let bytes = path.as_bytes();
    let mut i: usize = 0;
    while i < bytes.len()
        invariant
            i <= bytes.len(),
            bytes@ == path.spec_bytes(),
            forall|j: int| 0 <= j < i ==> #[trigger] bytes@[j] != 0,
        decreases bytes.len() - i,
    {
        if bytes[i] == 0 {
            return Err(ControlError::TypeMismatch);
        }
        i += 1;
    }
    Ok(())
}

/// An operation of the control channel.
#[derive(Debug, Clone, PartialEq, Eq)]
pub enum Operation {
    /// Reads whether the allocator was started with profiling.
    IsProfilingEnabled,
    /// Reads whether sampling is switched on.
    IsActive,
    /// Switches sampling on or off.
    SetActive(bool),
    /// Reads the exponent of the sampling interval.
    SampleInterval,
    /// Resets what profiling has gathered; with a number, that number is
    /// the exponent of the sampling interval from now on.
    Reset(Option<usize>),
    /// Dumps a profile, to the file of the given path and then back as
    /// bytes, or without a path to a file that the allocator names.
    Dump(Option<String>),
    /// Reads the statistics report.
    Stats,
}

/// The view of an `Operation`: the same operation over mathematical values.
pub enum OperationView {
    IsProfilingEnabled,
    IsActive,
    SetActive(bool),
    SampleInterval,
    Reset(Option<usize>),
    Dump(Option<Seq<char>>),
    Stats,
}

impl View for Operation {
    type V = OperationView;

    open spec fn view(&self) -> OperationView {
        match self {
            Operation::IsProfilingEnabled => OperationView::IsProfilingEnabled,
            Operation::IsActive => OperationView::IsActive,
            Operation::SetActive(state) => OperationView::SetActive(*state),
            Operation::SampleInterval => OperationView::SampleInterval,
            Operation::Reset(sample) => OperationView::Reset(*sample),
            Operation::Dump(path) => OperationView::Dump(
                match path {
                    Some(p) => Some(p@),
                    None => None,
                },
            ),
            Operation::Stats => OperationView::Stats,
        }
    }
}

impl OperationView {
    /// The control point of the operation.
    pub open spec fn point(self) -> ControlPoint {
        match self {
            OperationView::IsProfilingEnabled => ControlPoint::ProfilingEnabled,
            OperationView::IsActive => ControlPoint::ProfilingActive,
            OperationView::SetActive(_) => ControlPoint::ProfilingActive,
            OperationView::SampleInterval => ControlPoint::SampleInterval,
            OperationView::Reset(_) => ControlPoint::ResetTrigger,
            OperationView::Dump(_) => ControlPoint::DumpTarget,
            OperationView::Stats => ControlPoint::StatsText,
        }
    }

    /// Whether the operation writes to its control point.
    pub open spec fn writes(self) -> bool {
        self is SetActive || self is Reset || self is Dump
    }

    /// The type of the value that is read, or of the value that is written.
    pub open spec fn value_type(self) -> ValueType {
        match self {
            OperationView::IsProfilingEnabled => ValueType::Flag,
            OperationView::IsActive => ValueType::Flag,
            OperationView::SetActive(_) => ValueType::Flag,
            OperationView::SampleInterval => ValueType::Number,
            OperationView::Reset(Some(_)) => ValueType::Number,
            OperationView::Reset(None) => ValueType::Nothing,
            OperationView::Dump(Some(_)) => ValueType::Text,
            OperationView::Dump(None) => ValueType::Nothing,
            OperationView::Stats => ValueType::Text,
        }
    }
}

impl OperationView {
    /// Whether `reply` is what the operation hands back when it went
    /// through: a flag for the two questions, a number for the sample
    /// interval, bytes for the statistics and for a dump to a named file,
    /// and a bare acknowledgement for the rest.
    pub open spec fn accepts(self, reply: ReplyView) -> bool {
        match self {
            OperationView::IsProfilingEnabled => reply is Flag,
            OperationView::IsActive => reply is Flag,
            OperationView::SetActive(_) => reply is Done,
            OperationView::SampleInterval => reply is Number,
            OperationView::Reset(_) => reply is Done,
            OperationView::Dump(Some(_)) => reply is Bytes,
            OperationView::Dump(None) => reply is Done,
            OperationView::Stats => reply is Bytes,
        }
    }
}

impl Operation {
    /// Tells whether `reply` is what the operation hands back when it went
    /// through.
    pub fn accepts(&self, reply: &Reply) -> (r: bool)
        ensures
            r == self@.accepts(reply@),
    {
        match (self, reply) {
            (Operation::IsProfilingEnabled, Reply::Flag(_)) => true,
            (Operation::IsActive, Reply::Flag(_)) => true,
            (Operation::SetActive(_), Reply::Done) => true,
            (Operation::SampleInterval, Reply::Number(_)) => true,
            (Operation::Reset(_), Reply::Done) => true,
            (Operation::Dump(Some(_)), Reply::Bytes(_)) => true,
            (Operation::Dump(None), Reply::Done) => true,
            (Operation::Stats, Reply::Bytes(_)) => true,
            _ => false,
        }
    }

    /// The control point of the operation.
    pub fn point(&self) -> (r: ControlPoint)
        ensures
            r == self@.point(),
    {
        match self {
            Operation::IsProfilingEnabled => ControlPoint::ProfilingEnabled,
            Operation::IsActive => ControlPoint::ProfilingActive,
            Operation::SetActive(_) => ControlPoint::ProfilingActive,
            Operation::SampleInterval => ControlPoint::SampleInterval,
            Operation::Reset(_) => ControlPoint::ResetTrigger,
            Operation::Dump(_) => ControlPoint::DumpTarget,
            Operation::Stats => ControlPoint::StatsText,
        }
    }

    /// Whether the operation writes to its control point.
    pub fn writes(&self) -> (r: bool)
        ensures
            r == self@.writes(),
    {
        match self {
            Operation::SetActive(_) => true,
            Operation::Reset(_) => true,
            Operation::Dump(_) => true,
            _ => false,
        }
    }

    /// The type of the value that is read, or of the value that is written.
    pub fn value_type(&self) -> (r: ValueType)
        ensures
            r == self@.value_type(),
    {
        match self {
            Operation::IsProfilingEnabled => ValueType::Flag,
            Operation::IsActive => ValueType::Flag,
            Operation::SetActive(_) => ValueType::Flag,
            Operation::SampleInterval => ValueType::Number,
            Operation::Reset(Some(_)) => ValueType::Number,
            Operation::Reset(None) => ValueType::Nothing,
            Operation::Dump(Some(_)) => ValueType::Text,
            Operation::Dump(None) => ValueType::Nothing,
            Operation::Stats => ValueType::Text,
        }
    }

    /// Checks the operation against its control point, and the path of a
    /// dump against what the allocator can take. The allocator is asked
    /// only where this gives `Ok`.
    pub fn check(&self) -> (r: Result<(), ControlError>)
        ensures
            r == match self@ {
                OperationView::Dump(Some(path)) => if is_dump_path(vstd::utf8::encode_utf8(path)) {
                    Ok::<(), ControlError>(())
                } else {
                    Err::<(), ControlError>(ControlError::TypeMismatch)
                },
                _ => Ok::<(), ControlError>(()),
            },
    {
        let permitted = if self.writes() {
            check_write(self.point(), self.value_type())
        } else {
            check_read(self.point(), self.value_type())
        };
        proof {
            lemma_operations_are_permitted(self@);
        }
        match permitted {
            Err(e) => Err(e),
            Ok(()) => match self {
                Operation::Dump(Some(path)) => check_dump_path(path.as_str()),
                _ => Ok(()),
            },
        }
    }
}

/// Every operation uses its control point as the control point allows: it
/// reads what can be read, writes what can be written, and with a value of
/// the control point's own type.
pub proof fn lemma_operations_are_permitted(operation: OperationView)
    ensures
        operation.writes() ==> write_permitted(operation.point(), operation.value_type()),
        !operation.writes() ==> read_permitted(operation.point(), operation.value_type()),
{
}

/// What the host hands back after it did what it was asked to.
#[derive(Debug, Clone, PartialEq, Eq)]
pub enum Reply {
    /// The flag that was read.
    Flag(bool),
    /// The number that was read.
    Number(usize),
    /// The bytes that were read: a report, or the profile that was dumped.
    Bytes(Vec<u8>),
    /// The write went through; nothing comes back.
    Done,
    /// The file that was created for a dump: its path, and its name within
    /// its directory.
    File(String, String),
    /// The failure.
    Failed(ControlError),
}

/// The view of a `Reply`: the same reply over mathematical values.
pub enum ReplyView {
    Flag(bool),
    Number(usize),
    Bytes(Seq<u8>),
    Done,
    File(Seq<char>, Seq<char>),
    Failed(ControlError),
}

impl View for Reply {
    type V = ReplyView;

    open spec fn view(&self) -> ReplyView {
        match self {
            Reply::Flag(b) => ReplyView::Flag(*b),
            Reply::Number(n) => ReplyView::Number(*n),
            Reply::Bytes(bytes) => ReplyView::Bytes(bytes@),
            Reply::Done => ReplyView::Done,
            Reply::File(path, name) => ReplyView::File(path@, name@),
            Reply::Failed(e) => ReplyView::Failed(*e),
        }
    }
}

/// The view of the replies of a conversation.
pub open spec fn replies_view(replies: Seq<Reply>) -> Seq<ReplyView> {
    replies.map_values(|r: Reply| r@)
}

impl ReplyView {
    /// The flag of the reply; a reply of another type is a type mismatch.
    pub open spec fn flag(self) -> Result<bool, ControlError> {
        match self {
            ReplyView::Flag(b) => Ok(b),
            ReplyView::Failed(e) => Err(e),
            _ => Err(ControlError::TypeMismatch),
        }
    }

    /// The number of the reply; a reply of another type is a type mismatch.
    pub open spec fn number(self) -> Result<usize, ControlError> {
        match self {
            ReplyView::Number(n) => Ok(n),
            ReplyView::Failed(e) => Err(e),
            _ => Err(ControlError::TypeMismatch),
        }
    }

    /// The bytes of the reply; a reply of another type is a type mismatch.
    pub open spec fn bytes(self) -> Result<Seq<u8>, ControlError> {
        match self {
            ReplyView::Bytes(bytes) => Ok(bytes),
            ReplyView::Failed(e) => Err(e),
            _ => Err(ControlError::TypeMismatch),
        }
    }

    /// Whether the write went through; a reply that carries a value is a
    /// type mismatch.
    pub open spec fn done(self) -> Result<(), ControlError> {
        match self {
            ReplyView::Done => Ok(()),
            ReplyView::Failed(e) => Err(e),
            _ => Err(ControlError::TypeMismatch),
        }
    }

    /// The path and the name of the file of the reply; a reply of another
    /// type is a type mismatch.
    pub open spec fn file(self) -> Result<(Seq<char>, Seq<char>), ControlError> {
        match self {
            ReplyView::File(path, name) => Ok((path, name)),
            ReplyView::Failed(e) => Err(e),
            _ => Err(ControlError::TypeMismatch),
        }
    }
}

impl Reply {
    /// Reads the reply as a flag.
    pub fn flag(&self) -> (r: Result<bool, ControlError>)
        ensures
            r == self@.flag(),
    {
        match self {
            Reply::Flag(b) => Ok(*b),
            Reply::Failed(e) => Err(*e),
            _ => Err(ControlError::TypeMismatch),
        }
    }

    /// Reads the reply as a number.
    pub fn number(&self) -> (r: Result<usize, ControlError>)
        ensures
            r == self@.number(),
    {
        match self {
            Reply::Number(n) => Ok(*n),
            Reply::Failed(e) => Err(*e),
            _ => Err(ControlError::TypeMismatch),
        }
    }

    /// Reads the reply as bytes.
    pub fn bytes(&self) -> (r: Result<&Vec<u8>, ControlError>)
        ensures
            match r {
                Ok(bytes) => self@.bytes() == Ok::<Seq<u8>, ControlError>(bytes@),
                Err(e) => self@.bytes() == Err::<Seq<u8>, ControlError>(e),
            },
    {
        match self {
            Reply::Bytes(bytes) => Ok(bytes),
            Reply::Failed(e) => Err(*e),
            _ => Err(ControlError::TypeMismatch),
        }
    }

    /// Reads the reply as the acknowledgement of a write.
    pub fn done(&self) -> (r: Result<(), ControlError>)
        ensures
            r == self@.done(),
    {
        match self {
            Reply::Done => Ok(()),
            Reply::Failed(e) => Err(*e),
            _ => Err(ControlError::TypeMismatch),
        }
    }

    /// Reads the reply as a file.
    pub fn file(&self) -> (r: Result<(&String, &String), ControlError>)
        ensures
            match r {
                Ok((path, name)) => self@.file() == Ok::<(Seq<char>, Seq<char>), ControlError>(
                    (path@, name@),
                ),
                Err(e) => self@.file() == Err::<(Seq<char>, Seq<char>), ControlError>(e),
            },
    {
        match self {
            Reply::File(path, name) => Ok((path, name)),
            Reply::Failed(e) => Err(*e),
            _ => Err(ControlError::TypeMismatch),
        }
    }
}

} // verus!
