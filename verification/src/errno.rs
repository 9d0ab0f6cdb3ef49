//! Error numbers of the C runtime, as an enum.
use vstd::prelude::*;
use vstd::std_specs::convert::TryFromSpecImpl;
use vstd::string::*;

verus! {

/// An error number (`errno`) reported by the C runtime of the system.
#[derive(Debug, Clone, Copy, PartialEq, Eq, Structural)]
pub enum SystemError {
    /// Not owner (`EPERM`).
    PermissionInvalid,
    /// No such file or directory (`ENOENT`).
    NoEntry,
    /// No such process (`ESRCH`).
    NoSuchProcess,
    /// Interrupted system call (`EINTR`).
    Interrupted,
    /// I/O error (`EIO`).
    Io,
    /// No such device or address (`ENXIO`).
    NoSuchDeviceOrAddress,
    /// Argument list too long (`E2BIG`).
    ArgumentListTooLong,
    /// Exec format error (`ENOEXEC`).
    ExecFormatError,
    /// Bad file number (`EBADF`).
    BadFileNumber,
    /// No children (`ECHILD`).
    NoChildren,
    /// No more processes | Operation would block (`EAGAIN`).
    NoMoreProcesses,
    /// Not enough space (`ENOMEM`).
    NotEnoughSpace,
    /// Permission denied (`EACCES`).
    PermissionDeniedAgain,
    /// Bad address (`EFAULT`).
    BadAddress,
    /// Device or resource busy (`EBUSY`).
    Busy,
    /// File exists (`EEXIST`).
    Exist,
    /// Cross-device link (`EXDEV`).
    CrossDeviceLink,
    /// No such device (`ENODEV`).
    NoDevice,
    /// Not a directory (`ENOTDIR`).
    NotDirectory,
    /// Is a directory (`EISDIR`).
    IsDirectory,
    /// Invalid argument (`EINVAL`).
    InvalidArgument,
    /// Too many open files in system (`ENFILE`).
    TooManyOpenFiles,
    /// File descriptor value too large (`EMFILE`).
    FileDescriptorTooLarge,
    /// Not a character device (`ENOTTY`).
    NotCharacterDevice,
    /// Text file busy (`ETXTBSY`).
    TextFileBusy,
    /// File too large (`EFBIG`).
    FileTooLarge,
    /// No space left on device (`ENOSPC`).
    NoSpaceLeft,
    /// Illegal seek (`ESPIPE`).
    IllegalSeek,
    /// Read-only file system (`EROFS`).
    ReadOnlyFileSystem,
    /// Too many links (`EMLINK`).
    TooManyLinks,
    /// Broken pipe (`EPIPE`).
    BrokenPipe,
    /// Mathematics argument out of domain of function (`EDOM`).
    OutOfDomain,
    /// Result too large (`ERANGE`).
    ResultTooLarge,
    /// No message of desired type (`ENOMSG`).
    NoMessage,
    /// Identifier removed (`EIDRM`).
    IdentifierRemoved,
    /// Deadlock (`EDEADLK`).
    Deadlock,
    /// No lock (`ENOLCK`).
    NoLock,
    /// Not a stream (`ENOSTR`).
    NotStream,
    /// No data (for no delay io) (`ENODATA`).
    NoData,
    /// Stream ioctl timeout (`ETIME`).
    StreamIoctlTimeout,
    /// No stream resources (`ENOSR`).
    NoStreamResources,
    /// Virtual circuit is gone (`ENOLINK`).
    NoLink,
    /// Protocol error (`EPROTO`).
    ProtocolError,
    /// Multihop attempted (`EMULTIHOP`).
    MultihopAttempted,
    /// Bad message (`EBADMSG`).
    BadMessage,
    /// Inappropriate file type or format (`EFTYPE`).
    InappropriateFile,
    /// Function not implemented (`ENOSYS`).
    FunctionNotImplemented,
    /// Directory not empty (`ENOTEMPTY`).
    NotEmpty,
    /// File or path name too long (`ENAMETOOLONG`).
    NameTooLong,
    /// Too many symbolic links (`ELOOP`).
    TooManySymbolicLinks,
    /// Operation not supported on socket (`EOPNOTSUPP`).
    OperationNotSupportedOnSocket,
    /// Protocol family not supported (`EPFNOSUPPORT`).
    ProtocolFamilyNotSupported,
    /// Connection reset by peer (`ECONNRESET`).
    ConnectionReset,
    /// No buffer space available (`ENOBUFS`).
    NoBufferSpace,
    /// Address family not supported by protocol family (`EAFNOSUPPORT`).
    AddressFamilyNotSupported,
    /// Protocol wrong type for socket (`EPROTOTYPE`).
    ProtocolWrongTypeForSocket,
    /// Socket operation on non-socket (`ENOTSOCK`).
    NotSocket,
    /// Protocol not available (`ENOPROTOOPT`).
    ProtocolNotAvailable,
    /// Connection refused (`ECONNREFUSED`).
    ConnectionRefused,
    /// Address already in use (`EADDRINUSE`).
    AddressInUse,
    /// Software caused connection abort (`ECONNABORTED`).
    ConnectionAborted,
    /// Network is unreachable (`ENETUNREACH`).
    NetworkUnreachable,
    /// Network interface is not configured (`ENETDOWN`).
    NetworkDown,
    /// Connection timed out (`ETIMEDOUT`).
    TimedOut,
    /// Host is down (`EHOSTDOWN`).
    HostDown,
    /// Host is unreachable (`EHOSTUNREACH`).
    HostUnreachable,
    /// Connection already in progress (`EINPROGRESS`).
    InProgress,
    /// Socket already connected (`EALREADY`).
    AlreadyConnected,
    /// Destination address required (`EDESTADDRREQ`).
    DestinationAddressRequired,
    /// Message too long (`EMSGSIZE`).
    MessageTooLong,
    /// Unknown protocol (`EPROTONOSUPPORT`).
    ProtocolNotSupported,
    /// Address not available (`EADDRNOTAVAIL`).
    AddressNotAvailable,
    /// Connection aborted by network (`ENETRESET`).
    NetworkReset,
    /// Socket is already connected (`EISCONN`).
    IsConnected,
    /// Socket is not connected (`ENOTCONN`).
    NotConnected,
    /// Too many references: cannot splice. (`ETOOMANYREFS`).
    TooManyReferences,
    /// Disk quota exceeded (`EDQUOT`).
    DiskQuotaExceeded,
    /// Stale file handle (`ESTALE`).
    StaleFileHandle,
    /// Not supported (`ENOTSUP`).
    NotSupported,
    /// Illegal byte sequence (`EILSEQ`).
    IllegalByteSequence,
    /// Value too large for defined data type (`EOVERFLOW`).
    Overflow,
    /// Operation canceled (`ECANCELED`).
    Canceled,
    /// State not recoverable (`ENOTRECOVERABLE`).
    NotRecoverable,
    /// Previous owner died (`EOWNERDEAD`).
    OwnerDead,
    /// An error number that is not one of the above.
    Unknown(i32),
}

/// The error number that an error stands for.
pub open spec fn errno_of(e: SystemError) -> i32 {
    match e {
        SystemError::PermissionInvalid => 1,
        SystemError::NoEntry => 2,
        SystemError::NoSuchProcess => 3,
        SystemError::Interrupted => 4,
        SystemError::Io => 5,
        SystemError::NoSuchDeviceOrAddress => 6,
        SystemError::ArgumentListTooLong => 7,
        SystemError::ExecFormatError => 8,
        SystemError::BadFileNumber => 9,
        SystemError::NoChildren => 10,
        SystemError::NoMoreProcesses => 11,
        SystemError::NotEnoughSpace => 12,
        SystemError::PermissionDeniedAgain => 13,
        SystemError::BadAddress => 14,
        SystemError::Busy => 16,
        SystemError::Exist => 17,
        SystemError::CrossDeviceLink => 18,
        SystemError::NoDevice => 19,
        SystemError::NotDirectory => 20,
        SystemError::IsDirectory => 21,
        SystemError::InvalidArgument => 22,
        SystemError::TooManyOpenFiles => 23,
        SystemError::FileDescriptorTooLarge => 24,
        SystemError::NotCharacterDevice => 25,
        SystemError::TextFileBusy => 26,
        SystemError::FileTooLarge => 27,
        SystemError::NoSpaceLeft => 28,
        SystemError::IllegalSeek => 29,
        SystemError::ReadOnlyFileSystem => 30,
        SystemError::TooManyLinks => 31,
        SystemError::BrokenPipe => 32,
        SystemError::OutOfDomain => 33,
        SystemError::ResultTooLarge => 34,
        SystemError::NoMessage => 35,
        SystemError::IdentifierRemoved => 36,
        SystemError::Deadlock => 45,
        SystemError::NoLock => 46,
        SystemError::NotStream => 60,
        SystemError::NoData => 61,
        SystemError::StreamIoctlTimeout => 62,
        SystemError::NoStreamResources => 63,
        SystemError::NoLink => 67,
        SystemError::ProtocolError => 71,
        SystemError::MultihopAttempted => 74,
        SystemError::BadMessage => 77,
        SystemError::InappropriateFile => 79,
        SystemError::FunctionNotImplemented => 88,
        SystemError::NotEmpty => 90,
        SystemError::NameTooLong => 91,
        SystemError::TooManySymbolicLinks => 92,
        SystemError::OperationNotSupportedOnSocket => 95,
        SystemError::ProtocolFamilyNotSupported => 96,
        SystemError::ConnectionReset => 104,
        SystemError::NoBufferSpace => 105,
        SystemError::AddressFamilyNotSupported => 106,
        SystemError::ProtocolWrongTypeForSocket => 107,
        SystemError::NotSocket => 108,
        SystemError::ProtocolNotAvailable => 109,
        SystemError::ConnectionRefused => 111,
        SystemError::AddressInUse => 112,
        SystemError::ConnectionAborted => 113,
        SystemError::NetworkUnreachable => 114,
        SystemError::NetworkDown => 115,
        SystemError::TimedOut => 116,
        SystemError::HostDown => 117,
        SystemError::HostUnreachable => 118,
        SystemError::InProgress => 119,
        SystemError::AlreadyConnected => 120,
        SystemError::DestinationAddressRequired => 121,
        SystemError::MessageTooLong => 122,
        SystemError::ProtocolNotSupported => 123,
        SystemError::AddressNotAvailable => 125,
        SystemError::NetworkReset => 126,
        SystemError::IsConnected => 127,
        SystemError::NotConnected => 128,
        SystemError::TooManyReferences => 129,
        SystemError::DiskQuotaExceeded => 132,
        SystemError::StaleFileHandle => 133,
        SystemError::NotSupported => 134,
        SystemError::IllegalByteSequence => 138,
        SystemError::Overflow => 139,
        SystemError::Canceled => 140,
        SystemError::NotRecoverable => 141,
        SystemError::OwnerDead => 142,
        SystemError::Unknown(v) => v,
    }
}

/// The error that a known, nonzero error number stands for; `None` for any other number.
pub open spec fn known_error(value: i32) -> Option<SystemError> {
    match value {
        1 => Some(SystemError::PermissionInvalid),
        2 => Some(SystemError::NoEntry),
        3 => Some(SystemError::NoSuchProcess),
        4 => Some(SystemError::Interrupted),
        5 => Some(SystemError::Io),
        6 => Some(SystemError::NoSuchDeviceOrAddress),
        7 => Some(SystemError::ArgumentListTooLong),
        8 => Some(SystemError::ExecFormatError),
        9 => Some(SystemError::BadFileNumber),
        10 => Some(SystemError::NoChildren),
        11 => Some(SystemError::NoMoreProcesses),
        12 => Some(SystemError::NotEnoughSpace),
        13 => Some(SystemError::PermissionDeniedAgain),
        14 => Some(SystemError::BadAddress),
        16 => Some(SystemError::Busy),
        17 => Some(SystemError::Exist),
        18 => Some(SystemError::CrossDeviceLink),
        19 => Some(SystemError::NoDevice),
        20 => Some(SystemError::NotDirectory),
        21 => Some(SystemError::IsDirectory),
        22 => Some(SystemError::InvalidArgument),
        23 => Some(SystemError::TooManyOpenFiles),
        24 => Some(SystemError::FileDescriptorTooLarge),
        25 => Some(SystemError::NotCharacterDevice),
        26 => Some(SystemError::TextFileBusy),
        27 => Some(SystemError::FileTooLarge),
        28 => Some(SystemError::NoSpaceLeft),
        29 => Some(SystemError::IllegalSeek),
        30 => Some(SystemError::ReadOnlyFileSystem),
        31 => Some(SystemError::TooManyLinks),
        32 => Some(SystemError::BrokenPipe),
        33 => Some(SystemError::OutOfDomain),
        34 => Some(SystemError::ResultTooLarge),
        35 => Some(SystemError::NoMessage),
        36 => Some(SystemError::IdentifierRemoved),
        45 => Some(SystemError::Deadlock),
        46 => Some(SystemError::NoLock),
        60 => Some(SystemError::NotStream),
        61 => Some(SystemError::NoData),
        62 => Some(SystemError::StreamIoctlTimeout),
        63 => Some(SystemError::NoStreamResources),
        67 => Some(SystemError::NoLink),
        71 => Some(SystemError::ProtocolError),
        74 => Some(SystemError::MultihopAttempted),
        77 => Some(SystemError::BadMessage),
        79 => Some(SystemError::InappropriateFile),
        88 => Some(SystemError::FunctionNotImplemented),
        90 => Some(SystemError::NotEmpty),
        91 => Some(SystemError::NameTooLong),
        92 => Some(SystemError::TooManySymbolicLinks),
        95 => Some(SystemError::OperationNotSupportedOnSocket),
        96 => Some(SystemError::ProtocolFamilyNotSupported),
        104 => Some(SystemError::ConnectionReset),
        105 => Some(SystemError::NoBufferSpace),
        106 => Some(SystemError::AddressFamilyNotSupported),
        107 => Some(SystemError::ProtocolWrongTypeForSocket),
        108 => Some(SystemError::NotSocket),
        109 => Some(SystemError::ProtocolNotAvailable),
        111 => Some(SystemError::ConnectionRefused),
        112 => Some(SystemError::AddressInUse),
        113 => Some(SystemError::ConnectionAborted),
        114 => Some(SystemError::NetworkUnreachable),
        115 => Some(SystemError::NetworkDown),
        116 => Some(SystemError::TimedOut),
        117 => Some(SystemError::HostDown),
        118 => Some(SystemError::HostUnreachable),
        119 => Some(SystemError::InProgress),
        120 => Some(SystemError::AlreadyConnected),
        121 => Some(SystemError::DestinationAddressRequired),
        122 => Some(SystemError::MessageTooLong),
        123 => Some(SystemError::ProtocolNotSupported),
        125 => Some(SystemError::AddressNotAvailable),
        126 => Some(SystemError::NetworkReset),
        127 => Some(SystemError::IsConnected),
        128 => Some(SystemError::NotConnected),
        129 => Some(SystemError::TooManyReferences),
        132 => Some(SystemError::DiskQuotaExceeded),
        133 => Some(SystemError::StaleFileHandle),
        134 => Some(SystemError::NotSupported),
        138 => Some(SystemError::IllegalByteSequence),
        139 => Some(SystemError::Overflow),
        140 => Some(SystemError::Canceled),
        141 => Some(SystemError::NotRecoverable),
        142 => Some(SystemError::OwnerDead),
        _ => None,
    }
}

/// What reading an error number gives: `Ok(Unknown(0))` for 0, which means no error;
/// otherwise the error it stands for, or `Unknown` with the number when it is not known.
pub open spec fn system_error_from(value: i32) -> Result<SystemError, SystemError> {
    if value == 0 {
        Ok(SystemError::Unknown(0))
    } else {
        match known_error(value) {
            Some(e) => Err(e),
            None => Err(SystemError::Unknown(value)),
        }
    }
}

/// The message of an error.
pub open spec fn system_error_message(e: SystemError) -> Seq<char> {
    match e {
        SystemError::PermissionInvalid => "Not owner"@,
        SystemError::NoEntry => "No such file or directory"@,
        SystemError::NoSuchProcess => "No such process"@,
        SystemError::Interrupted => "Interrupted system call"@,
        SystemError::Io => "I/O error"@,
        SystemError::NoSuchDeviceOrAddress => "No such device or address"@,
        SystemError::ArgumentListTooLong => "Argument list too long"@,
        SystemError::ExecFormatError => "Exec format error"@,
        SystemError::BadFileNumber => "Bad file number"@,
        SystemError::NoChildren => "No children"@,
        SystemError::NoMoreProcesses => "No more processes | Operation would block"@,
        SystemError::NotEnoughSpace => "Not enough space"@,
        SystemError::PermissionDeniedAgain => "Permission denied"@,
        SystemError::BadAddress => "Bad address"@,
        SystemError::Busy => "Device or resource busy"@,
        SystemError::Exist => "File exists"@,
        SystemError::CrossDeviceLink => "Cross-device link"@,
        SystemError::NoDevice => "No such device"@,
        SystemError::NotDirectory => "Not a directory"@,
        SystemError::IsDirectory => "Is a directory"@,
        SystemError::InvalidArgument => "Invalid argument"@,
        SystemError::TooManyOpenFiles => "Too many open files in system"@,
        SystemError::FileDescriptorTooLarge => "File descriptor value too large"@,
        SystemError::NotCharacterDevice => "Not a character device"@,
        SystemError::TextFileBusy => "Text file busy"@,
        SystemError::FileTooLarge => "File too large"@,
        SystemError::NoSpaceLeft => "No space left on device"@,
        SystemError::IllegalSeek => "Illegal seek"@,
        SystemError::ReadOnlyFileSystem => "Read-only file system"@,
        SystemError::TooManyLinks => "Too many links"@,
        SystemError::BrokenPipe => "Broken pipe"@,
        SystemError::OutOfDomain => "Mathematics argument out of domain of function"@,
        SystemError::ResultTooLarge => "Result too large"@,
        SystemError::NoMessage => "No message of desired type"@,
        SystemError::IdentifierRemoved => "Identifier removed"@,
        SystemError::Deadlock => "Deadlock"@,
        SystemError::NoLock => "No lock"@,
        SystemError::NotStream => "Not a stream"@,
        SystemError::NoData => "No data (for no delay io)"@,
        SystemError::StreamIoctlTimeout => "Stream ioctl timeout"@,
        SystemError::NoStreamResources => "No stream resources"@,
        SystemError::NoLink => "Virtual circuit is gone"@,
        SystemError::ProtocolError => "Protocol error"@,
        SystemError::MultihopAttempted => "Multihop attempted"@,
        SystemError::BadMessage => "Bad message"@,
        SystemError::InappropriateFile => "Inappropriate file type or format"@,
        SystemError::FunctionNotImplemented => "Function not implemented"@,
        SystemError::NotEmpty => "Directory not empty"@,
        SystemError::NameTooLong => "File or path name too long"@,
        SystemError::TooManySymbolicLinks => "Too many symbolic links"@,
        SystemError::OperationNotSupportedOnSocket => "Operation not supported on socket"@,
        SystemError::ProtocolFamilyNotSupported => "Protocol family not supported"@,
        SystemError::ConnectionReset => "Connection reset by peer"@,
        SystemError::NoBufferSpace => "No buffer space available"@,
        SystemError::AddressFamilyNotSupported => "Address family not supported by protocol family"@,
        SystemError::ProtocolWrongTypeForSocket => "Protocol wrong type for socket"@,
        SystemError::NotSocket => "Socket operation on non-socket"@,
        SystemError::ProtocolNotAvailable => "Protocol not available"@,
        SystemError::ConnectionRefused => "Connection refused"@,
        SystemError::AddressInUse => "Address already in use"@,
        SystemError::ConnectionAborted => "Software caused connection abort"@,
        SystemError::NetworkUnreachable => "Network is unreachable"@,
        SystemError::NetworkDown => "Network interface is not configured"@,
        SystemError::TimedOut => "Connection timed out"@,
        SystemError::HostDown => "Host is down"@,
        SystemError::HostUnreachable => "Host is unreachable"@,
        SystemError::InProgress => "Connection already in progress"@,
        SystemError::AlreadyConnected => "Socket already connected"@,
        SystemError::DestinationAddressRequired => "Destination address required"@,
        SystemError::MessageTooLong => "Message too long"@,
        SystemError::ProtocolNotSupported => "Unknown protocol"@,
        SystemError::AddressNotAvailable => "Address not available"@,
        SystemError::NetworkReset => "Connection aborted by network"@,
        SystemError::IsConnected => "Socket is already connected"@,
        SystemError::NotConnected => "Socket is not connected"@,
        SystemError::TooManyReferences => "Too many references: cannot splice."@,
        SystemError::DiskQuotaExceeded => "Disk quota exceeded"@,
        SystemError::StaleFileHandle => "Stale file handle"@,
        SystemError::NotSupported => "Not supported"@,
        SystemError::IllegalByteSequence => "Illegal byte sequence"@,
        SystemError::Overflow => "Value too large for defined data type"@,
        SystemError::Canceled => "Operation canceled"@,
        SystemError::NotRecoverable => "State not recoverable"@,
        SystemError::OwnerDead => "Previous owner died"@,
        SystemError::Unknown(_) => "Unkown error"@,
    }
}

impl SystemError {
    /// The error that the error number `value` stands for, with `Unknown(value)` when the
    /// number is not known; 0, which means no error, also gives `Unknown(0)`.
    pub fn from_errno(value: i32) -> (r: SystemError)
        ensures
            r == (match system_error_from(value) {
                Ok(e) => e,
                Err(e) => e,
            }),
    {
        match SystemError::try_from(value) {
            Ok(v) => v,
            Err(v) => v,
        }
    }
}

impl SystemError {
    /// The message of the error, such as `No such file or directory`.
    pub fn to_string(&self) -> (r: String)
        ensures
            r@ == system_error_message(*self),
    {
        let m = match self {
            SystemError::PermissionInvalid => "Not owner",
            SystemError::NoEntry => "No such file or directory",
            SystemError::NoSuchProcess => "No such process",
            SystemError::Interrupted => "Interrupted system call",
            SystemError::Io => "I/O error",
            SystemError::NoSuchDeviceOrAddress => "No such device or address",
            SystemError::ArgumentListTooLong => "Argument list too long",
            SystemError::ExecFormatError => "Exec format error",
            SystemError::BadFileNumber => "Bad file number",
            SystemError::NoChildren => "No children",
            SystemError::NoMoreProcesses => "No more processes | Operation would block",
            SystemError::NotEnoughSpace => "Not enough space",
            SystemError::PermissionDeniedAgain => "Permission denied",
            SystemError::BadAddress => "Bad address",
            SystemError::Busy => "Device or resource busy",
            SystemError::Exist => "File exists",
            SystemError::CrossDeviceLink => "Cross-device link",
            SystemError::NoDevice => "No such device",
            SystemError::NotDirectory => "Not a directory",
            SystemError::IsDirectory => "Is a directory",
            SystemError::InvalidArgument => "Invalid argument",
            SystemError::TooManyOpenFiles => "Too many open files in system",
            SystemError::FileDescriptorTooLarge => "File descriptor value too large",
            SystemError::NotCharacterDevice => "Not a character device",
            SystemError::TextFileBusy => "Text file busy",
            SystemError::FileTooLarge => "File too large",
            SystemError::NoSpaceLeft => "No space left on device",
            SystemError::IllegalSeek => "Illegal seek",
            SystemError::ReadOnlyFileSystem => "Read-only file system",
            SystemError::TooManyLinks => "Too many links",
            SystemError::BrokenPipe => "Broken pipe",
            SystemError::OutOfDomain => "Mathematics argument out of domain of function",
            SystemError::ResultTooLarge => "Result too large",
            SystemError::NoMessage => "No message of desired type",
            SystemError::IdentifierRemoved => "Identifier removed",
            SystemError::Deadlock => "Deadlock",
            SystemError::NoLock => "No lock",
            SystemError::NotStream => "Not a stream",
            SystemError::NoData => "No data (for no delay io)",
            SystemError::StreamIoctlTimeout => "Stream ioctl timeout",
            SystemError::NoStreamResources => "No stream resources",
            SystemError::NoLink => "Virtual circuit is gone",
            SystemError::ProtocolError => "Protocol error",
            SystemError::MultihopAttempted => "Multihop attempted",
            SystemError::BadMessage => "Bad message",
            SystemError::InappropriateFile => "Inappropriate file type or format",
            SystemError::FunctionNotImplemented => "Function not implemented",
            SystemError::NotEmpty => "Directory not empty",
            SystemError::NameTooLong => "File or path name too long",
            SystemError::TooManySymbolicLinks => "Too many symbolic links",
            SystemError::OperationNotSupportedOnSocket => "Operation not supported on socket",
            SystemError::ProtocolFamilyNotSupported => "Protocol family not supported",
            SystemError::ConnectionReset => "Connection reset by peer",
            SystemError::NoBufferSpace => "No buffer space available",
            SystemError::AddressFamilyNotSupported => "Address family not supported by protocol family",
            SystemError::ProtocolWrongTypeForSocket => "Protocol wrong type for socket",
            SystemError::NotSocket => "Socket operation on non-socket",
            SystemError::ProtocolNotAvailable => "Protocol not available",
            SystemError::ConnectionRefused => "Connection refused",
            SystemError::AddressInUse => "Address already in use",
            SystemError::ConnectionAborted => "Software caused connection abort",
            SystemError::NetworkUnreachable => "Network is unreachable",
            SystemError::NetworkDown => "Network interface is not configured",
            SystemError::TimedOut => "Connection timed out",
            SystemError::HostDown => "Host is down",
            SystemError::HostUnreachable => "Host is unreachable",
            SystemError::InProgress => "Connection already in progress",
            SystemError::AlreadyConnected => "Socket already connected",
            SystemError::DestinationAddressRequired => "Destination address required",
            SystemError::MessageTooLong => "Message too long",
            SystemError::ProtocolNotSupported => "Unknown protocol",
            SystemError::AddressNotAvailable => "Address not available",
            SystemError::NetworkReset => "Connection aborted by network",
            SystemError::IsConnected => "Socket is already connected",
            SystemError::NotConnected => "Socket is not connected",
            SystemError::TooManyReferences => "Too many references: cannot splice.",
            SystemError::DiskQuotaExceeded => "Disk quota exceeded",
            SystemError::StaleFileHandle => "Stale file handle",
            SystemError::NotSupported => "Not supported",
            SystemError::IllegalByteSequence => "Illegal byte sequence",
            SystemError::Overflow => "Value too large for defined data type",
            SystemError::Canceled => "Operation canceled",
            SystemError::NotRecoverable => "State not recoverable",
            SystemError::OwnerDead => "Previous owner died",
            SystemError::Unknown(_) => "Unkown error",
        };
        m.to_owned()
    }
}

impl TryFrom<i32> for SystemError {
    type Error = SystemError;

    /// Reads an error number: `Ok(Unknown(0))` for 0 (no error), otherwise `Err` with the
    /// error that the number stands for.
    fn try_from(value: i32) -> (r: Result<SystemError, SystemError>) {
        if value == 0 {
            return Ok(SystemError::Unknown(0));
        }
        match value {
            1 => Err(SystemError::PermissionInvalid),
            2 => Err(SystemError::NoEntry),
            3 => Err(SystemError::NoSuchProcess),
            4 => Err(SystemError::Interrupted),
            5 => Err(SystemError::Io),
            6 => Err(SystemError::NoSuchDeviceOrAddress),
            7 => Err(SystemError::ArgumentListTooLong),
            8 => Err(SystemError::ExecFormatError),
            9 => Err(SystemError::BadFileNumber),
            10 => Err(SystemError::NoChildren),
            11 => Err(SystemError::NoMoreProcesses),
            12 => Err(SystemError::NotEnoughSpace),
            13 => Err(SystemError::PermissionDeniedAgain),
            14 => Err(SystemError::BadAddress),
            16 => Err(SystemError::Busy),
            17 => Err(SystemError::Exist),
            18 => Err(SystemError::CrossDeviceLink),
            19 => Err(SystemError::NoDevice),
            20 => Err(SystemError::NotDirectory),
            21 => Err(SystemError::IsDirectory),
            22 => Err(SystemError::InvalidArgument),
            23 => Err(SystemError::TooManyOpenFiles),
            24 => Err(SystemError::FileDescriptorTooLarge),
            25 => Err(SystemError::NotCharacterDevice),
            26 => Err(SystemError::TextFileBusy),
            27 => Err(SystemError::FileTooLarge),
            28 => Err(SystemError::NoSpaceLeft),
            29 => Err(SystemError::IllegalSeek),
            30 => Err(SystemError::ReadOnlyFileSystem),
            31 => Err(SystemError::TooManyLinks),
            32 => Err(SystemError::BrokenPipe),
            33 => Err(SystemError::OutOfDomain),
            34 => Err(SystemError::ResultTooLarge),
            35 => Err(SystemError::NoMessage),
            36 => Err(SystemError::IdentifierRemoved),
            45 => Err(SystemError::Deadlock),
            46 => Err(SystemError::NoLock),
            60 => Err(SystemError::NotStream),
            61 => Err(SystemError::NoData),
            62 => Err(SystemError::StreamIoctlTimeout),
            63 => Err(SystemError::NoStreamResources),
            67 => Err(SystemError::NoLink),
            71 => Err(SystemError::ProtocolError),
            74 => Err(SystemError::MultihopAttempted),
            77 => Err(SystemError::BadMessage),
            79 => Err(SystemError::InappropriateFile),
            88 => Err(SystemError::FunctionNotImplemented),
            90 => Err(SystemError::NotEmpty),
            91 => Err(SystemError::NameTooLong),
            92 => Err(SystemError::TooManySymbolicLinks),
            95 => Err(SystemError::OperationNotSupportedOnSocket),
            96 => Err(SystemError::ProtocolFamilyNotSupported),
            104 => Err(SystemError::ConnectionReset),
            105 => Err(SystemError::NoBufferSpace),
            106 => Err(SystemError::AddressFamilyNotSupported),
            107 => Err(SystemError::ProtocolWrongTypeForSocket),
            108 => Err(SystemError::NotSocket),
            109 => Err(SystemError::ProtocolNotAvailable),
            111 => Err(SystemError::ConnectionRefused),
            112 => Err(SystemError::AddressInUse),
            113 => Err(SystemError::ConnectionAborted),
            114 => Err(SystemError::NetworkUnreachable),
            115 => Err(SystemError::NetworkDown),
            116 => Err(SystemError::TimedOut),
            117 => Err(SystemError::HostDown),
            118 => Err(SystemError::HostUnreachable),
            119 => Err(SystemError::InProgress),
            120 => Err(SystemError::AlreadyConnected),
            121 => Err(SystemError::DestinationAddressRequired),
            122 => Err(SystemError::MessageTooLong),
            123 => Err(SystemError::ProtocolNotSupported),
            125 => Err(SystemError::AddressNotAvailable),
            126 => Err(SystemError::NetworkReset),
            127 => Err(SystemError::IsConnected),
            128 => Err(SystemError::NotConnected),
            129 => Err(SystemError::TooManyReferences),
            132 => Err(SystemError::DiskQuotaExceeded),
            133 => Err(SystemError::StaleFileHandle),
            134 => Err(SystemError::NotSupported),
            138 => Err(SystemError::IllegalByteSequence),
            139 => Err(SystemError::Overflow),
            140 => Err(SystemError::Canceled),
            141 => Err(SystemError::NotRecoverable),
            142 => Err(SystemError::OwnerDead),
            _ => Err(SystemError::Unknown(value)),
        }
    }
}

impl TryFromSpecImpl<i32> for SystemError {
    open spec fn obeys_try_from_spec() -> bool {
        true
    }

    open spec fn try_from_spec(v: i32) -> Result<SystemError, SystemError> {
        system_error_from(v)
    }
}

/// Each known error is read back from its own number, and that number is not 0.
pub proof fn law_errno_round_trip(e: SystemError)
    requires
        !(e is Unknown),
    ensures
        errno_of(e) != 0,
        known_error(errno_of(e)) == Some(e),
        system_error_from(errno_of(e)) == Err::<SystemError, SystemError>(e),
{
}

/// An unknown error number is read as `Unknown` with that number, which gives the number
/// back.
pub proof fn law_unknown_errno(value: i32)
    requires
        value != 0,
        known_error(value) is None,
    ensures
        system_error_from(value) == Err::<SystemError, SystemError>(SystemError::Unknown(value)),
        errno_of(SystemError::Unknown(value)) == value,
{
}

/// The native number (newlib's `errno` value) of each known error.
pub proof fn law_native_errno_numbers()
    ensures
        errno_of(SystemError::PermissionInvalid) == 1,
        errno_of(SystemError::NoEntry) == 2,
        errno_of(SystemError::NoSuchProcess) == 3,
        errno_of(SystemError::Interrupted) == 4,
        errno_of(SystemError::Io) == 5,
        errno_of(SystemError::NoSuchDeviceOrAddress) == 6,
        errno_of(SystemError::ArgumentListTooLong) == 7,
        errno_of(SystemError::ExecFormatError) == 8,
        errno_of(SystemError::BadFileNumber) == 9,
        errno_of(SystemError::NoChildren) == 10,
        errno_of(SystemError::NoMoreProcesses) == 11,
        errno_of(SystemError::NotEnoughSpace) == 12,
        errno_of(SystemError::PermissionDeniedAgain) == 13,
        errno_of(SystemError::BadAddress) == 14,
        errno_of(SystemError::Busy) == 16,
        errno_of(SystemError::Exist) == 17,
        errno_of(SystemError::CrossDeviceLink) == 18,
        errno_of(SystemError::NoDevice) == 19,
        errno_of(SystemError::NotDirectory) == 20,
        errno_of(SystemError::IsDirectory) == 21,
        errno_of(SystemError::InvalidArgument) == 22,
        errno_of(SystemError::TooManyOpenFiles) == 23,
        errno_of(SystemError::FileDescriptorTooLarge) == 24,
        errno_of(SystemError::NotCharacterDevice) == 25,
        errno_of(SystemError::TextFileBusy) == 26,
        errno_of(SystemError::FileTooLarge) == 27,
        errno_of(SystemError::NoSpaceLeft) == 28,
        errno_of(SystemError::IllegalSeek) == 29,
        errno_of(SystemError::ReadOnlyFileSystem) == 30,
        errno_of(SystemError::TooManyLinks) == 31,
        errno_of(SystemError::BrokenPipe) == 32,
        errno_of(SystemError::OutOfDomain) == 33,
        errno_of(SystemError::ResultTooLarge) == 34,
        errno_of(SystemError::NoMessage) == 35,
        errno_of(SystemError::IdentifierRemoved) == 36,
        errno_of(SystemError::Deadlock) == 45,
        errno_of(SystemError::NoLock) == 46,
        errno_of(SystemError::NotStream) == 60,
        errno_of(SystemError::NoData) == 61,
        errno_of(SystemError::StreamIoctlTimeout) == 62,
        errno_of(SystemError::NoStreamResources) == 63,
        errno_of(SystemError::NoLink) == 67,
        errno_of(SystemError::ProtocolError) == 71,
        errno_of(SystemError::MultihopAttempted) == 74,
        errno_of(SystemError::BadMessage) == 77,
        errno_of(SystemError::InappropriateFile) == 79,
        errno_of(SystemError::FunctionNotImplemented) == 88,
        errno_of(SystemError::NotEmpty) == 90,
        errno_of(SystemError::NameTooLong) == 91,
        errno_of(SystemError::TooManySymbolicLinks) == 92,
        errno_of(SystemError::OperationNotSupportedOnSocket) == 95,
        errno_of(SystemError::ProtocolFamilyNotSupported) == 96,
        errno_of(SystemError::ConnectionReset) == 104,
        errno_of(SystemError::NoBufferSpace) == 105,
        errno_of(SystemError::AddressFamilyNotSupported) == 106,
        errno_of(SystemError::ProtocolWrongTypeForSocket) == 107,
        errno_of(SystemError::NotSocket) == 108,
        errno_of(SystemError::ProtocolNotAvailable) == 109,
        errno_of(SystemError::ConnectionRefused) == 111,
        errno_of(SystemError::AddressInUse) == 112,
        errno_of(SystemError::ConnectionAborted) == 113,
        errno_of(SystemError::NetworkUnreachable) == 114,
        errno_of(SystemError::NetworkDown) == 115,
        errno_of(SystemError::TimedOut) == 116,
        errno_of(SystemError::HostDown) == 117,
        errno_of(SystemError::HostUnreachable) == 118,
        errno_of(SystemError::InProgress) == 119,
        errno_of(SystemError::AlreadyConnected) == 120,
        errno_of(SystemError::DestinationAddressRequired) == 121,
        errno_of(SystemError::MessageTooLong) == 122,
        errno_of(SystemError::ProtocolNotSupported) == 123,
        errno_of(SystemError::AddressNotAvailable) == 125,
        errno_of(SystemError::NetworkReset) == 126,
        errno_of(SystemError::IsConnected) == 127,
        errno_of(SystemError::NotConnected) == 128,
        errno_of(SystemError::TooManyReferences) == 129,
        errno_of(SystemError::DiskQuotaExceeded) == 132,
        errno_of(SystemError::StaleFileHandle) == 133,
        errno_of(SystemError::NotSupported) == 134,
        errno_of(SystemError::IllegalByteSequence) == 138,
        errno_of(SystemError::Overflow) == 139,
        errno_of(SystemError::Canceled) == 140,
        errno_of(SystemError::NotRecoverable) == 141,
        errno_of(SystemError::OwnerDead) == 142,
{
}

} // verus!
