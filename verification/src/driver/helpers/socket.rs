//! How sockets are set up and used asynchronously.
use crate::buf::BufResult;
use crate::error::IoError;
use vstd::prelude::*;

verus! {

/// The platforms whose sockets are set up differently.
#[derive(Clone, Copy, Debug, PartialEq, Eq, Structural)]
pub enum Platform {
    Linux,
    Apple,
    Bsd,
    Windows,
}

/// One step of setting up a socket. The first step that fails ends it.
#[derive(Clone, Copy, Debug, PartialEq, Eq, Structural)]
pub enum SocketStep {
    ReuseAddress,
    ReusePort,
    Nonblocking,
    CloseOnExec,
    /// Writing to a closed peer is to be an error, not a signal.
    NoSigPipe,
    Bind,
    /// Attach the socket to the driver of the running runtime.
    Attach,
}

/// The steps that make a socket asynchronous.
///
/// Apple systems can refuse `NoSigPipe` on Unix domain sockets, so those go
/// without.
pub open spec fn spec_configure(platform: Platform, unix_domain: bool) -> Seq<SocketStep> {
    match platform {
        Platform::Linux | Platform::Windows => seq![SocketStep::Nonblocking],
        Platform::Bsd => seq![SocketStep::Nonblocking, SocketStep::CloseOnExec],
        Platform::Apple => if unix_domain {
            seq![SocketStep::Nonblocking, SocketStep::CloseOnExec]
        } else {
            seq![SocketStep::Nonblocking, SocketStep::CloseOnExec, SocketStep::NoSigPipe]
        },
    }
}

fn push_configure(steps: &mut Vec<SocketStep>, platform: Platform, unix_domain: bool)
    ensures
        final(steps)@ == old(steps)@ + spec_configure(platform, unix_domain),
{
    steps.push(SocketStep::Nonblocking);
    if platform == Platform::Apple || platform == Platform::Bsd {
        steps.push(SocketStep::CloseOnExec);
    }
    if platform == Platform::Apple && !unix_domain {
        steps.push(SocketStep::NoSigPipe);
    }
    assert(steps@ =~= old(steps)@ + spec_configure(platform, unix_domain));
}

/// The steps that make a socket asynchronous.
pub fn configure_async_socket(platform: Platform, unix_domain: bool) -> (steps: Vec<SocketStep>)
    ensures
        steps@ == spec_configure(platform, unix_domain),
{
    let mut steps: Vec<SocketStep> = Vec::new();
    push_configure(&mut steps, platform, unix_domain);
    assert(steps@ =~= spec_configure(platform, unix_domain));
    steps
}

/// The steps for a new socket.
pub fn new_socket_steps(platform: Platform, unix_domain: bool) -> (steps: Vec<SocketStep>)
    ensures
        steps@ == spec_configure(platform, unix_domain).push(SocketStep::Attach),
{
    let mut steps: Vec<SocketStep> = configure_async_socket(platform, unix_domain);
    steps.push(SocketStep::Attach);
    steps
}

/// The steps for a socket that is bound to an address. Only Unix systems let
/// several sockets share a port.
pub fn bind_steps(platform: Platform, unix_domain: bool) -> (steps: Vec<SocketStep>)
    ensures
        steps@ == (if platform is Windows {
            seq![SocketStep::ReuseAddress]
        } else {
            seq![SocketStep::ReuseAddress, SocketStep::ReusePort]
        }) + spec_configure(platform, unix_domain) + seq![SocketStep::Bind, SocketStep::Attach],
{
    let mut steps: Vec<SocketStep> = Vec::new();
    steps.push(SocketStep::ReuseAddress);
    if platform != Platform::Windows {
        steps.push(SocketStep::ReusePort);
    }
    push_configure(&mut steps, platform, unix_domain);
    steps.push(SocketStep::Bind);
    steps.push(SocketStep::Attach);
    assert(steps@ =~= (if platform is Windows {
        seq![SocketStep::ReuseAddress]
    } else {
        seq![SocketStep::ReuseAddress, SocketStep::ReusePort]
    }) + spec_configure(platform, unix_domain) + seq![SocketStep::Bind, SocketStep::Attach]);
    steps
}

/// A socket is asynchronous before it is handed to a driver, and bound before
/// that, on every platform.
pub proof fn law_sockets_are_nonblocking_before_they_are_attached(platform: Platform, unix_domain: bool)
    ensures
        spec_configure(platform, unix_domain).contains(SocketStep::Nonblocking),
        !spec_configure(platform, unix_domain).contains(SocketStep::Attach),
        !spec_configure(platform, unix_domain).contains(SocketStep::Bind),
{
    assert(spec_configure(platform, unix_domain)[0] == SocketStep::Nonblocking);
}

/// Begin an operation that can be cancelled. `registered` says whether its
/// cancellation handle still takes operations, or why not.
///
/// Where the operation does not begin, because it was cancelled before or
/// because the driver refused it, its buffer comes back with the error.
pub fn begin_cancellable<O, R, B, F: FnOnce(B) -> Result<O, (IoError, B)>>(
    buf: B,
    registered: Result<(), IoError>,
    submit: F,
) -> (begun: Result<O, BufResult<R, B>>)
    requires
        registered is Ok ==> call_requires(submit, (buf,)),
    ensures
        match registered {
            Err(canceled) => begun == Err::<O, BufResult<R, B>>(BufResult(Err(canceled), buf)),
            Ok(_) => exists|submitted: Result<O, (IoError, B)>| #[trigger]
                call_ensures(submit, (buf,), submitted) && begun == (match submitted {
                    Ok(op) => Ok::<O, BufResult<R, B>>(op),
                    Err((error, returned)) => Err::<O, BufResult<R, B>>(BufResult(Err(error), returned)),
                }),
        },
{
    if let Err(canceled) = registered {
        return Err(BufResult(Err(canceled), buf));
    }
    match submit(buf) {
        Ok(op) => Ok(op),
        Err((error, returned)) => Err(BufResult(Err(error), returned)),
    }
}

/// A socket is made asynchronous first and handed to the driver last. It is bound before
/// that if it has an address of its own, after it was told to share it. What only some
/// systems have is asked of those alone.
pub proof fn law_sockets_are_set_up_in_order(
    platform: Platform,
    unix_domain: bool,
    configure: Vec<SocketStep>,
    fresh: Vec<SocketStep>,
    bound: Vec<SocketStep>,
)
    requires
        call_ensures(configure_async_socket, (platform, unix_domain), configure),
        call_ensures(new_socket_steps, (platform, unix_domain), fresh),
        call_ensures(bind_steps, (platform, unix_domain), bound),
    ensures
        configure@.len() > 0 && configure@[0] == SocketStep::Nonblocking,
        configure@.contains(SocketStep::CloseOnExec) <==> platform is Apple || platform is Bsd,
        configure@.contains(SocketStep::NoSigPipe) <==> platform is Apple && !unix_domain,
        !configure@.contains(SocketStep::Attach) && !configure@.contains(SocketStep::Bind),
        fresh@ == configure@.push(SocketStep::Attach),
        bound@.len() >= 3 && bound@.last() == SocketStep::Attach && bound@[bound@.len() - 2] == SocketStep::Bind,
        bound@[0] == SocketStep::ReuseAddress,
        bound@.contains(SocketStep::ReusePort) <==> !(platform is Windows),
        forall|i: int| 0 <= i < configure@.len() ==> bound@.contains(#[trigger] configure@[i]),
{
    let reuse = if platform is Windows {
        seq![SocketStep::ReuseAddress]
    } else {
        seq![SocketStep::ReuseAddress, SocketStep::ReusePort]
    };
    assert(bound@ == reuse + configure@ + seq![SocketStep::Bind, SocketStep::Attach]);
    assert(configure@[0] == SocketStep::Nonblocking);
    if platform is Apple || platform is Bsd {
        assert(configure@[1] == SocketStep::CloseOnExec);
    }
    if platform is Apple && !unix_domain {
        assert(configure@[2] == SocketStep::NoSigPipe);
    }
    if !(platform is Windows) {
        assert(bound@[1] == SocketStep::ReusePort);
    }
    assert forall|i: int| 0 <= i < configure@.len() implies bound@.contains(#[trigger] configure@[i]) by {
        assert(bound@[reuse.len() + i] == configure@[i]);
    }
}

} // verus!
