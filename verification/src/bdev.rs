use vstd::prelude::*;

verus! {

/// The typed failures of the block-device layer. Write and read errors carry
/// the device name, the completion code, and the offset and length of the
/// failed transfer, so a diagnostic can identify what was involved.
#[derive(Debug)]
pub enum BdevError {
    WriteError(String, i32, u64, u64),
    ReadError(String, i32, u64, u64),
    NotFound(String),
    OpenError(String),
    IOChannelError(),
}

/// The completion code a failed block-device transfer is recorded with: the
/// completion callback does not carry the hardware's own code forward, only
/// success or failure.
pub const FAILED_IO_CODE: i32 = -1;

/// What the block-device completion callback hands to the waiting caller:
/// success, or the failure code.
pub fn completion_to_result(success: bool) -> (r: Result<(), i32>)
    ensures
        success ==> r == Result::<(), i32>::Ok(()),
        !success ==> r == Result::<(), i32>::Err(FAILED_IO_CODE),
{
    if success {
        Ok(())
    } else {
        Err(FAILED_IO_CODE)
    }
}

/// Map a device lookup to its result: the handle when the device exists,
/// `NotFound` naming the device when it does not.
pub fn get_by_name_outcome(found: Option<u64>, bdev_name: String) -> (r: Result<u64, BdevError>)
    ensures
        found matches Some(h) ==> r == Result::<u64, BdevError>::Ok(h),
        found is None ==> r == Result::<u64, BdevError>::Err(BdevError::NotFound(bdev_name)),
{
    match found {
        Some(h) => Ok(h),
        None => Err(BdevError::NotFound(bdev_name)),
    }
}

/// Map the status an open call returned: zero opens the device, anything
/// else is `OpenError` naming it.
pub fn open_outcome(rc: i32, bdev_name: String) -> (r: Result<(), BdevError>)
    ensures
        rc == 0 ==> r == Result::<(), BdevError>::Ok(()),
        rc != 0 ==> r == Result::<(), BdevError>::Err(BdevError::OpenError(bdev_name)),
{
    if rc == 0 {
        Ok(())
    } else {
        Err(BdevError::OpenError(bdev_name))
    }
}

/// Map an I/O-channel request to its result: the channel when one was
/// produced, `IOChannelError` when none could be created.
pub fn io_channel_outcome(raw: Option<u64>) -> (r: Result<u64, BdevError>)
    ensures
        raw matches Some(c) ==> r == Result::<u64, BdevError>::Ok(c),
        raw is None ==> r == Result::<u64, BdevError>::Err(BdevError::IOChannelError()),
{
    match raw {
        Some(c) => Ok(c),
        None => Err(BdevError::IOChannelError()),
    }
}

/// The caller-visible result of an awaited write: success passes through, a
/// failed completion becomes `WriteError` carrying the device name and the
/// offset and length of the transfer.
pub fn write_result(bdev_name: String, res: Result<(), i32>, offset: u64, nbytes: u64) -> (r:
    Result<(), BdevError>)
    ensures
        res is Ok ==> r == Result::<(), BdevError>::Ok(()),
        res is Err ==> r == Result::<(), BdevError>::Err(
            BdevError::WriteError(bdev_name, FAILED_IO_CODE, offset, nbytes),
        ),
{
    match res {
        Ok(()) => Ok(()),
        Err(_e) => Err(BdevError::WriteError(bdev_name, FAILED_IO_CODE, offset, nbytes)),
    }
}

/// The caller-visible result of an awaited read, as `write_result` but for
/// `ReadError`.
pub fn read_result(bdev_name: String, res: Result<(), i32>, offset: u64, nbytes: u64) -> (r: Result<
    (),
    BdevError,
>)
    ensures
        res is Ok ==> r == Result::<(), BdevError>::Ok(()),
        res is Err ==> r == Result::<(), BdevError>::Err(
            BdevError::ReadError(bdev_name, FAILED_IO_CODE, offset, nbytes),
        ),
{
    match res {
        Ok(()) => Ok(()),
        Err(_e) => Err(BdevError::ReadError(bdev_name, FAILED_IO_CODE, offset, nbytes)),
    }
}

} // verus!
