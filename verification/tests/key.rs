use neon::driver::errno::{syscall, syscall_break, Attempt, Numbers};
use neon::driver::iour::{clear, notify, Cleared, POLLIN};
use neon::driver::key::{
    decode_batch, decode_data, encode, encode_batch, BATCH_MASK, CANCEL, DATA_MASK, NOTIFY,
};
use neon::driver::DriverType;

fn numbers() -> Numbers {
    Numbers {
        again: libc::EAGAIN,
        would_block: libc::EWOULDBLOCK,
        in_progress: libc::EINPROGRESS,
        interrupted: libc::EINTR,
        busy: libc::EBUSY,
        timer_expired: libc::ETIME,
        canceled: libc::ECANCELED,
    }
}

#[test]
fn driver_types_have_names() {
    assert_eq!(DriverType::Poll.name(), "polling");
    assert_eq!(DriverType::IoUring.name(), "io-uring");
    assert!(DriverType::Poll.is_polling());
    assert!(!DriverType::IoUring.is_polling());
}

#[test]
fn poll_flag_is_that_of_the_system() {
    assert_eq!(POLLIN, libc::POLLIN as u32);
}

#[test]
fn keys_have_exact_values() {
    assert_eq!(encode_batch(0), 0);
    assert_eq!(encode_batch(3), 0x0003_0000_0000_0000);
    assert_eq!(encode(encode_batch(3), 0xABCD), 0x0003_0000_0000_ABCD);
    assert_eq!(NOTIFY, u64::MAX);
    assert_eq!(CANCEL, u64::MAX - 1);
    assert_eq!(BATCH_MASK, !DATA_MASK);
}

#[test]
fn keys_lead_back() {
    for hid in [0u64, 1, 2, 255, 0xFFFE, 0xFFFF] {
        for id in [0u32, 1, 77, u32::MAX - 1, u32::MAX] {
            let key = encode(encode_batch(hid), id);
            assert_eq!(decode_batch(key) as u64, hid);
            assert_eq!(decode_data(key) as u64, id as u64);
            assert_ne!(key, NOTIFY);
            assert_ne!(key, CANCEL);
        }
    }
}

#[test]
fn keys_are_distinct() {
    assert_ne!(encode(encode_batch(1), 5), encode(encode_batch(2), 5));
    assert_ne!(encode(encode_batch(1), 5), encode(encode_batch(1), 6));
}

#[test]
fn handler_numbers_wrap() {
    assert_eq!(encode_batch(0x1_0000), encode_batch(0));
    assert_eq!(encode_batch(0x1_0007), encode_batch(7));
}

#[test]
fn system_calls_are_read() {
    assert_eq!(syscall(7, 99), Ok(7));
    assert_eq!(syscall(0, 99), Ok(0));
    assert_eq!(syscall(-1, 99), Err(99));
}

#[test]
fn non_blocking_calls_are_read() {
    let linux = numbers();
    assert!(matches!(syscall_break(5, 0, linux), Attempt::Ready(Ok(5))));
    assert!(matches!(syscall_break(-1, libc::EAGAIN, linux), Attempt::Pending));
    assert!(matches!(syscall_break(-1, libc::EINPROGRESS, linux), Attempt::Pending));
    assert!(matches!(syscall_break(-1, libc::EINTR, linux), Attempt::Again));
    assert!(matches!(
        syscall_break(-1, libc::EBADF, linux),
        Attempt::Ready(Err(libc::EBADF))
    ));
    let other = Numbers { again: 34, would_block: 35, in_progress: 36, ..numbers() };
    assert!(matches!(syscall_break(-1, 34, other), Attempt::Pending));
    assert!(matches!(syscall_break(-1, 35, other), Attempt::Pending));
    assert!(matches!(syscall_break(-1, 36, other), Attempt::Pending));
    assert!(matches!(syscall_break(-1, 11, other), Attempt::Ready(Err(11))));
}

#[test]
fn wake_up_channel_is_cleared() {
    assert!(matches!(clear(8, 0, numbers()), Cleared::Done));
    assert!(matches!(clear(-1, libc::EAGAIN, numbers()), Cleared::Done));
    assert!(matches!(clear(-1, libc::EINTR, numbers()), Cleared::Again));
    assert!(matches!(
        clear(-1, libc::EBADF, numbers()),
        Cleared::Failed(libc::EBADF)
    ));
}

#[test]
fn wake_up_channel_is_written() {
    assert_eq!(notify(8, 0), Ok(()));
    assert_eq!(notify(-1, libc::EBADF), Err(libc::EBADF));
}
