//! Sizes as the system panel shows them: the unit a size is written in.

use vstd::prelude::*;

verus! {

/// The unit of a size given in bytes.
#[derive(Debug, Clone, Copy, PartialEq, Eq, Structural)]
pub enum ByteUnit {
    Bytes,
    Kib,
    Mib,
    Gib,
}

/// The largest binary unit that the size reaches, bytes below one KiB.
pub fn byte_unit(bytes: u64) -> (r: ByteUnit)
    ensures
        r == if bytes >= 1073741824 {
            ByteUnit::Gib
        } else if bytes >= 1048576 {
            ByteUnit::Mib
        } else if bytes >= 1024 {
            ByteUnit::Kib
        } else {
            ByteUnit::Bytes
        },
{
    if bytes >= 1024 * 1024 * 1024 {
        ByteUnit::Gib
    } else if bytes >= 1024 * 1024 {
        ByteUnit::Mib
    } else if bytes >= 1024 {
        ByteUnit::Kib
    } else {
        ByteUnit::Bytes
    }
}

/// The unit of a size given in KiB.
#[derive(Debug, Clone, Copy, PartialEq, Eq, Structural)]
pub enum KibUnit {
    Kib,
    Mib,
    Gib,
}

/// The largest binary unit that the size reaches, KiB below one MiB.
pub fn kib_unit(kib: u64) -> (r: KibUnit)
    ensures
        r == if kib >= 1048576 {
            KibUnit::Gib
        } else if kib >= 1024 {
            KibUnit::Mib
        } else {
            KibUnit::Kib
        },
{
    if kib >= 1024 * 1024 {
        KibUnit::Gib
    } else if kib >= 1024 {
        KibUnit::Mib
    } else {
        KibUnit::Kib
    }
}

} // verus!
