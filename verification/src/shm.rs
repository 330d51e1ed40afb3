use vstd::prelude::*;

use std::io::Seek;
use std::io::Write;

use crate::GammaError;

verus! {

#[verifier::external_type_specification]
#[verifier::external_body]
pub struct ExMemfd(memfd::Memfd);

#[verifier::external_type_specification]
#[verifier::external_body]
pub struct ExMemfdError(memfd::Error);

#[verifier::external_type_specification]
#[verifier::external_body]
pub struct ExIoError(std::io::Error);

/// Relies on memfd::MemfdOptions::create with sealing allowed: a fresh,
/// empty anonymous memory file that later accepts seals.
#[verifier::external_body]
fn memfd_create_sealable() -> (r: Result<memfd::Memfd, memfd::Error>) {
    memfd::MemfdOptions::default().allow_sealing(true).create("gamma-ramp")
}

/// Relies on Seek::seek through memfd::Memfd::as_file: repositions the
/// memory file to its start.
#[verifier::external_body]
fn memfd_rewind(m: &memfd::Memfd) -> (r: Result<u64, std::io::Error>) {
    let mut f = m.as_file();
    f.seek(std::io::SeekFrom::Start(0))
}

/// Relies on Write::write_all through memfd::Memfd::as_file: writes the
/// whole buffer to the memory file at its current position.
#[verifier::external_body]
fn memfd_write_all(m: &memfd::Memfd, data: &Vec<u8>) -> (r: Result<(), std::io::Error>) {
    let mut f = m.as_file();
    f.write_all(data.as_slice())
}

/// Relies on memfd::Memfd::add_seals with SealShrink, SealGrow and
/// SealWrite: once it succeeds the kernel refuses any later grow, shrink or
/// write on the file, from every holder of the descriptor.
#[verifier::external_body]
fn memfd_seal(m: &memfd::Memfd) -> (r: Result<(), memfd::Error>) {
    let seals = memfd::SealsHashSet::from_iter([
        memfd::FileSeal::SealShrink,
        memfd::FileSeal::SealGrow,
        memfd::FileSeal::SealWrite,
    ]);
    m.add_seals(&seals)
}

/// An owned, sealed shared-memory region holding one gamma table.  Its view
/// is the byte sequence that was written before sealing.  The owning value
/// must stay alive until the round-trip that lets the compositor read the
/// region completes: dropping it earlier releases memory another process is
/// still expected to read.
pub struct SealedRamp {
    fd: memfd::Memfd,
    bytes: Ghost<Seq<u8>>,
}

impl View for SealedRamp {
    type V = Seq<u8>;

    closed spec fn view(&self) -> Seq<u8> {
        self.bytes@
    }
}

impl SealedRamp {
    /// Borrows the descriptor so it can be handed to the protocol call
    /// without giving up ownership of the region.
    pub fn memfd(&self) -> &memfd::Memfd {
        &self.fd
    }
}

/// Builds the sealed shared-memory region for a ramp byte table: creates a
/// sealable anonymous memory file, writes all bytes from the start, rewinds,
/// and seals the file against growing, shrinking and writing.  On success
/// the region's view is exactly the input bytes; every failure of the
/// underlying memory file is reported as `ShmFailure`.
pub fn export(data: &Vec<u8>) -> (r: Result<SealedRamp, GammaError>)
    ensures
        r matches Ok(region) ==> region@ == data@,
        r is Err ==> r == Err::<SealedRamp, GammaError>(GammaError::ShmFailure),
{
    let fd = match memfd_create_sealable() {
        Ok(fd) => fd,
        Err(_) => {
            return Err(GammaError::ShmFailure);
        },
    };
    match memfd_rewind(&fd) {
        Ok(_) => (),
        Err(_) => {
            return Err(GammaError::ShmFailure);
        },
    }
    match memfd_write_all(&fd, data) {
        Ok(_) => (),
        Err(_) => {
            return Err(GammaError::ShmFailure);
        },
    }
    match memfd_rewind(&fd) {
        Ok(_) => (),
        Err(_) => {
            return Err(GammaError::ShmFailure);
        },
    }
    match memfd_seal(&fd) {
        Ok(_) => (),
        Err(_) => {
            return Err(GammaError::ShmFailure);
        },
    }
    Ok(SealedRamp { fd, bytes: Ghost(data@) })
}

} // verus!
