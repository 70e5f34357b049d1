//! Classification of the input a file descriptor offers.
use vstd::prelude::*;

verus! {

/// The kinds of readable input the engine accepts.
#[derive(Debug)]
pub enum IOType {
    File,
    Pipe,
    TcpStream,
    UdpSocket,
    UnixStream,
    Unknown(String),
}

/// The file classes a descriptor's mode bits tell apart.
#[derive(Clone, Copy, Debug, PartialEq, Eq, Structural)]
pub enum FdClass {
    File,
    Socket,
    Fifo,
    Terminal,
    Other,
}

/// The address family of a socket.
#[derive(Clone, Copy, Debug, PartialEq, Eq, Structural)]
pub enum SockFamily {
    Inet,
    Unix,
    Other,
}

/// The type of an internet socket.
#[derive(Clone, Copy, Debug, PartialEq, Eq, Structural)]
pub enum SockKind {
    Stream,
    Datagram,
    Other,
}

pub const S_IFMT: u32 = 0o170000;
pub const S_IFSOCK: u32 = 0o140000;
pub const S_IFREG: u32 = 0o100000;
pub const S_IFCHR: u32 = 0o20000;
pub const S_IFIFO: u32 = 0o10000;

pub open spec fn fd_class_spec(mode: u32) -> FdClass {
    let t = mode & 0o170000u32;
    if t == 0o100000u32 {
        FdClass::File
    } else if t == 0o140000u32 {
        FdClass::Socket
    } else if t == 0o10000u32 {
        FdClass::Fifo
    } else if t == 0o20000u32 {
        FdClass::Terminal
    } else {
        FdClass::Other
    }
}

/// The class of a descriptor whose `st_mode` is `mode`.
pub fn fd_class(mode: u32) -> (r: FdClass)
    ensures
        r == fd_class_spec(mode),
{
    let t = mode & S_IFMT;
    if t == S_IFREG {
        FdClass::File
    } else if t == S_IFSOCK {
        FdClass::Socket
    } else if t == S_IFIFO {
        FdClass::Fifo
    } else if t == S_IFCHR {
        FdClass::Terminal
    } else {
        FdClass::Other
    }
}

/// The input kind of a descriptor of class `class`; for a socket, `sock`
/// gives its family and, for an internet socket, its type. Fails, with the
/// reason, where the engine cannot read such input.
pub fn io_type_for(class: FdClass, sock: Option<(SockFamily, SockKind)>) -> (r: Result<IOType, String>)
    ensures
        match class {
            FdClass::File => r matches Ok(IOType::File),
            FdClass::Fifo => r matches Ok(IOType::Pipe),
            FdClass::Socket => match sock {
                Some((SockFamily::Inet, SockKind::Stream)) => r matches Ok(IOType::TcpStream),
                Some((SockFamily::Inet, SockKind::Datagram)) => r matches Ok(IOType::UdpSocket),
                Some((SockFamily::Inet, SockKind::Other)) => r matches Err(e) && e@ == "unsupported socket type"@,
                Some((SockFamily::Unix, _)) => r matches Ok(IOType::UnixStream),
                _ => r matches Err(e) && e@ == "unsupported socket family"@,
            },
            FdClass::Terminal => r matches Err(e) && e@ == "stdin input not supported"@,
            FdClass::Other => r matches Err(e) && e@ == "unknown fd type"@,
        },
{
    match class {
        FdClass::File => Ok(IOType::File),
        FdClass::Fifo => Ok(IOType::Pipe),
        FdClass::Socket => match sock {
            Some((SockFamily::Inet, SockKind::Stream)) => Ok(IOType::TcpStream),
            Some((SockFamily::Inet, SockKind::Datagram)) => Ok(IOType::UdpSocket),
            Some((SockFamily::Inet, _)) => Err("unsupported socket type".to_owned()),
            Some((SockFamily::Unix, _)) => Ok(IOType::UnixStream),
            _ => Err("unsupported socket family".to_owned()),
        },
        FdClass::Terminal => Err("stdin input not supported".to_owned()),
        FdClass::Other => Err("unknown fd type".to_owned()),
    }
}

} // verus!
