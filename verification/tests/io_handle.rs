use karmaio::driver::helpers::attached_handle::{current_driver, AttachedHandle};
use karmaio::driver::helpers::cstr::{cstr, wide};
use karmaio::driver::helpers::io_handle::{
    close_step, close_submitted, CloseStep, Closing, HandleRegistration, OsRawHandle, SharedIoHandle, WindowsRawHandle,
};
use karmaio::driver::helpers::socket::{
    bind_steps, configure_async_socket, new_socket_steps, Platform, SocketStep,
};
use karmaio::driver::ops::file::Close;
use karmaio::driver::ops::request::UringRequest;
use karmaio::error::{ErrorKind, IoError};
use karmaio::task::Poll;
use std::cell::Cell;
use std::rc::Rc;
use std::sync::atomic::{AtomicBool, Ordering};
use std::sync::Arc;
use std::task::{Wake, Waker};

struct WakeMarker(Arc<AtomicBool>);

impl Wake for WakeMarker {
    fn wake(self: Arc<Self>) {
        self.0.store(true, Ordering::SeqCst);
    }
}

/// A resource that notes when it is closed.
struct Resource(Rc<Cell<bool>>);

impl Drop for Resource {
    fn drop(&mut self) {
        self.0.set(true);
    }
}

fn resource() -> (SharedIoHandle<Resource>, Rc<Cell<bool>>) {
    let closed = Rc::new(Cell::new(false));
    (SharedIoHandle::new(Resource(closed.clone())), closed)
}

#[test]
fn registration_associates_once_and_rejects_another_driver() {
    let mut registration = HandleRegistration::new(WindowsRawHandle::Handle(1));
    let calls = Cell::new(0);

    registration
        .associate(7, |_| {
            calls.set(calls.get() + 1);
            Ok(())
        })
        .expect("first registration");
    registration
        .associate(7, |_| {
            calls.set(calls.get() + 1);
            Ok(())
        })
        .expect("same driver registration is idempotent");

    assert_eq!(calls.get(), 1);
    assert_eq!(
        registration
            .associate(8, |_| Ok(()))
            .expect_err("another driver must be rejected")
            .kind(),
        ErrorKind::AlreadyExists
    );
}

#[test]
fn failed_registration_can_be_retried() {
    let raw = usize::MAX;
    let mut registration = HandleRegistration::new(WindowsRawHandle::Socket(raw));
    let seen = Cell::new(0usize);

    assert_eq!(
        registration
            .associate(3, |handle| {
                seen.set(handle);
                Err(IoError::new(ErrorKind::PermissionDenied, "injected"))
            })
            .expect_err("injected registration failure")
            .kind(),
        ErrorKind::PermissionDenied
    );
    assert_eq!(seen.get(), raw);

    registration
        .associate(3, |_| Ok(()))
        .expect("failed registration must remain retryable");
}

#[test]
fn try_unwrap_succeeds_when_unique() {
    let (handle, closed) = resource();
    let owned = match handle.try_unwrap() {
        Ok(owned) => owned,
        Err(_) => panic!("unique handle should unwrap"),
    };
    assert!(!closed.get());
    drop(owned);
    assert!(closed.get());
}

#[test]
fn try_unwrap_fails_when_shared() {
    let (mut handle, closed) = resource();
    handle.share();
    let mut handle = match handle.try_unwrap() {
        Err(handle) => handle,
        Ok(_) => panic!("shared handle must not unwrap"),
    };
    assert!(!closed.get());
    assert!(handle.release().is_none());
    drop(handle);
    assert!(closed.get());
}

#[test]
fn close_waits_for_in_flight_clone() {
    let (mut handle, closed) = resource();
    handle.share();
    let woken = Arc::new(AtomicBool::new(false));
    let waker = Waker::from(Arc::new(WakeMarker(woken.clone())));

    // Closing waits until the operation in flight lets go.
    assert!(matches!(handle.poll_unique(&waker), Poll::Pending));
    assert!(!closed.get());
    handle.release().expect("whoever waits is woken").wake();
    assert!(woken.load(Ordering::SeqCst));

    assert!(matches!(handle.poll_unique(&waker), Poll::Ready(())));
    match close_step(handle.take_owned()) {
        CloseStep::Submit(owned) => drop(owned),
        CloseStep::AlreadyClosed => panic!("close should succeed"),
    }
    assert!(closed.get());
}

#[test]
fn close_when_already_unique() {
    let (mut handle, closed) = resource();
    assert!(matches!(handle.poll_unique(Waker::noop()), Poll::Ready(())));
    match close_step(handle.take_owned()) {
        CloseStep::Submit(owned) => drop(owned),
        CloseStep::AlreadyClosed => panic!("close should succeed"),
    }
    assert!(closed.get());
}

#[test]
fn take_returns_owned_when_unique() {
    let (mut handle, closed) = resource();
    match handle.poll_take_as(Waker::noop().clone(), false) {
        Poll::Ready(owned) => {
            let owned = owned.expect("take should return owned handle");
            assert!(!closed.get());
            drop(owned);
        }
        Poll::Pending => panic!("the only owner does not wait"),
    }
    assert!(closed.get());
}

#[test]
fn take_waits_for_in_flight_clone() {
    let (mut handle, closed) = resource();
    handle.share();
    assert!(matches!(handle.poll_take_as(Waker::noop().clone(), false), Poll::Pending));
    assert!(handle.release().is_some());
    match handle.poll_take_as(Waker::noop().clone(), false) {
        Poll::Ready(owned) => drop(owned.expect("take should succeed after clone drops")),
        Poll::Pending => panic!("the only owner does not wait"),
    }
    assert!(closed.get());
}

#[test]
fn drop_closes_synchronously_without_explicit_close() {
    let (handle, closed) = resource();
    drop(handle);
    assert!(closed.get());
}

#[test]
fn take_after_prior_take_is_none_via_closed_state() {
    let (mut handle, _closed) = resource();
    drop(handle.take_owned().expect("first take"));
    assert!(handle.take_owned().is_none());
    assert!(matches!(close_step(handle.take_owned()), CloseStep::AlreadyClosed));
}

#[test]
fn close_requests_name_the_descriptor() {
    let raw = OsRawHandle::Fd(9);
    assert_eq!(Close { io_handle: raw }.submit(), Some(UringRequest::Close { fd: 9 }));
}

#[test]
fn deref_exposes_resource() {
    let handle = SharedIoHandle::new("resource");
    assert_eq!(*handle.resource(), "resource");
}

#[test]
fn handles_need_a_running_driver() {
    assert_eq!(current_driver::<u8>(None, true).unwrap_err().kind(), ErrorKind::NotConnected);
    assert_eq!(current_driver(Some(1u8), false).unwrap_err().kind(), ErrorKind::BrokenPipe);
    assert_eq!(current_driver(Some(1u8), true).unwrap(), 1);

    let missing: Result<AttachedHandle<u8>, IoError> = AttachedHandle::new_socket(
        4,
        44,
        Err(IoError::new(ErrorKind::NotConnected, "no driver")),
        |_| panic!("nothing to register with"),
    );
    match missing {
        Ok(_) => panic!("attached without a driver"),
        Err(error) => assert_eq!(error.kind(), ErrorKind::NotConnected),
    }

    let seen = Cell::new(0usize);
    let attached = AttachedHandle::new_socket(4u8, 44, Ok(7), |raw| {
        seen.set(raw);
        Ok(())
    });
    assert_eq!(seen.get(), 44);
    let unwrapped = match attached {
        Ok(handle) => handle.try_unwrap(),
        Err(error) => panic!("attach: {:?}", error),
    };
    assert!(matches!(unwrapped, Ok(4)));
}

#[test]
fn paths_end_at_their_first_zero() {
    assert_eq!(cstr(b"/tmp".to_vec()).unwrap(), b"/tmp\0".to_vec());
    assert_eq!(cstr(Vec::new()).unwrap(), b"\0".to_vec());
    assert_eq!(cstr(b"/t\0mp".to_vec()).unwrap_err().kind(), ErrorKind::InvalidInput);
    assert_eq!(wide(vec![65, 66]), vec![65, 66, 0]);
}

#[test]
fn sockets_are_configured_before_they_are_attached() {
    assert_eq!(configure_async_socket(Platform::Linux, false), vec![SocketStep::Nonblocking]);
    assert_eq!(
        configure_async_socket(Platform::Apple, false),
        vec![SocketStep::Nonblocking, SocketStep::CloseOnExec, SocketStep::NoSigPipe]
    );
    assert_eq!(
        configure_async_socket(Platform::Apple, true),
        vec![SocketStep::Nonblocking, SocketStep::CloseOnExec]
    );
    assert_eq!(
        new_socket_steps(Platform::Bsd, false),
        vec![SocketStep::Nonblocking, SocketStep::CloseOnExec, SocketStep::Attach]
    );
    assert_eq!(
        bind_steps(Platform::Windows, false),
        vec![SocketStep::ReuseAddress, SocketStep::Nonblocking, SocketStep::Bind, SocketStep::Attach]
    );
    assert_eq!(
        bind_steps(Platform::Linux, false),
        vec![
            SocketStep::ReuseAddress,
            SocketStep::ReusePort,
            SocketStep::Nonblocking,
            SocketStep::Bind,
            SocketStep::Attach
        ]
    );
}

#[test]
fn a_refused_close_is_made_at_once() {
    let raw = OsRawHandle::Fd(5);
    assert!(matches!(close_submitted(raw, Ok("op")), Closing::Await("op")));
    let refused: Result<&str, IoError> = Err(IoError::from_raw_os_error(libc::EPIPE));
    match close_submitted(raw, refused) {
        Closing::CloseNow { raw, error } => {
            assert_eq!(raw, OsRawHandle::Fd(5));
            assert_eq!(error.raw_os_error(), Some(libc::EPIPE));
        }
        Closing::Await(_) => panic!("the driver refused"),
    }
}

#[test]
fn the_last_who_waits_is_told() {
    let (mut handle, _closed) = resource();
    handle.share();
    let woken = Arc::new(AtomicBool::new(false));
    let waker = Waker::from(Arc::new(WakeMarker(woken.clone())));
    assert!(matches!(handle.poll_unique(Waker::noop()), Poll::Pending));
    assert!(matches!(handle.poll_take(&waker), Poll::Pending));
    handle.release().expect("somebody waits").wake();
    assert!(woken.load(Ordering::SeqCst));
    assert!(matches!(handle.poll_unique(Waker::noop()), Poll::Ready(())));
}
