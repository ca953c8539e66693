//! The rows of the catalogue's tables and the states they can be in.

use vstd::prelude::*;

verus! {

/// The state of a chunk of an object.
#[derive(Debug, Clone, Copy, PartialEq, Eq, Structural)]
pub enum ChunkStatus {
    Temp,
    Committed,
    Trash,
    Deleted,
}

impl ChunkStatus {
    pub open spec fn spec_name(self) -> Seq<char> {
        match self {
            ChunkStatus::Temp => "temp"@,
            ChunkStatus::Committed => "committed"@,
            ChunkStatus::Trash => "trash"@,
            ChunkStatus::Deleted => "deleted"@,
        }
    }

    /// The name the state is stored under.
    pub fn as_str(&self) -> (s: &'static str)
        ensures
            s@ == self.spec_name(),
    {
        match self {
            ChunkStatus::Temp => "temp",
            ChunkStatus::Committed => "committed",
            ChunkStatus::Trash => "trash",
            ChunkStatus::Deleted => "deleted",
        }
    }

    /// The state a stored name stands for, if it is one.
    pub fn from_str(s: &str) -> (r: Option<Self>)
        ensures
            r matches Some(st) ==> st.spec_name() == s@,
            r is None ==> forall|st: ChunkStatus| st.spec_name() != s@,
    {
        proof {
            reveal_strlit("temp");
            reveal_strlit("committed");
            reveal_strlit("trash");
            reveal_strlit("deleted");
        }
        if crate::text::str_eq(s, "temp") {
            Some(ChunkStatus::Temp)
        } else if crate::text::str_eq(s, "committed") {
            Some(ChunkStatus::Committed)
        } else if crate::text::str_eq(s, "trash") {
            Some(ChunkStatus::Trash)
        } else if crate::text::str_eq(s, "deleted") {
            Some(ChunkStatus::Deleted)
        } else {
            None
        }
    }
}

/// A chunk of an object, where it is stored, and its checksum.
pub struct Chunks {
    pub chunk_id: i64,
    pub object_id: i64,
    pub chunk_index: i64,
    pub disk_id: i64,
    pub segment_id: Option<i64>,
    pub offset: Option<i64>,
    pub length: i64,
    pub checksum: Vec<u8>,
    pub status: ChunkStatus,
    pub created_at: i64,
}

/// The state of a stored object.
#[derive(Debug, Clone, Copy, PartialEq, Eq, Structural)]
pub enum ObjectStatus {
    Pending,
    Committed,
    Deleted,
}

impl ObjectStatus {
    pub open spec fn spec_name(self) -> Seq<char> {
        match self {
            ObjectStatus::Pending => "pending"@,
            ObjectStatus::Committed => "committed"@,
            ObjectStatus::Deleted => "deleted"@,
        }
    }

    pub fn as_str(&self) -> (s: &'static str)
        ensures
            s@ == self.spec_name(),
    {
        match self {
            ObjectStatus::Pending => "pending",
            ObjectStatus::Committed => "committed",
            ObjectStatus::Deleted => "deleted",
        }
    }

    pub fn from_str(s: &str) -> (r: Option<Self>)
        ensures
            r matches Some(st) ==> st.spec_name() == s@,
            r is None ==> forall|st: ObjectStatus| st.spec_name() != s@,
    {
        proof {
            reveal_strlit("pending");
            reveal_strlit("committed");
            reveal_strlit("deleted");
        }
        if crate::text::str_eq(s, "pending") {
            Some(ObjectStatus::Pending)
        } else if crate::text::str_eq(s, "committed") {
            Some(ObjectStatus::Committed)
        } else if crate::text::str_eq(s, "deleted") {
            Some(ObjectStatus::Deleted)
        } else {
            None
        }
    }
}

/// A stored object.
pub struct Objects {
    pub object_id: i64,
    pub external_id: Option<String>,
    pub total_size: i64,
    pub chunk_count: i64,
    pub status: ObjectStatus,
    pub created_at: i64,
    pub updated_at: i64,
}

/// The state of a segment file.
#[derive(Debug, Clone, Copy, PartialEq, Eq, Structural)]
pub enum SegmentStatus {
    Open,
    Sealed,
    Compacting,
    Deleted,
}

impl SegmentStatus {
    pub open spec fn spec_name(self) -> Seq<char> {
        match self {
            SegmentStatus::Open => "open"@,
            SegmentStatus::Sealed => "sealed"@,
            SegmentStatus::Compacting => "compacting"@,
            SegmentStatus::Deleted => "deleted"@,
        }
    }

    pub fn as_str(&self) -> (s: &'static str)
        ensures
            s@ == self.spec_name(),
    {
        match self {
            SegmentStatus::Open => "open",
            SegmentStatus::Sealed => "sealed",
            SegmentStatus::Compacting => "compacting",
            SegmentStatus::Deleted => "deleted",
        }
    }

    pub fn from_str(s: &str) -> (r: Option<Self>)
        ensures
            r matches Some(st) ==> st.spec_name() == s@,
            r is None ==> forall|st: SegmentStatus| st.spec_name() != s@,
    {
        proof {
            reveal_strlit("open");
            reveal_strlit("sealed");
            reveal_strlit("compacting");
            reveal_strlit("deleted");
        }
        if crate::text::str_eq(s, "open") {
            Some(SegmentStatus::Open)
        } else if crate::text::str_eq(s, "sealed") {
            Some(SegmentStatus::Sealed)
        } else if crate::text::str_eq(s, "compacting") {
            Some(SegmentStatus::Compacting)
        } else if crate::text::str_eq(s, "deleted") {
            Some(SegmentStatus::Deleted)
        } else {
            None
        }
    }
}

/// A segment file of a disk.
pub struct Segments {
    pub segment_id: i64,
    pub disk_id: i64,
    pub file_name: String,
    pub size_bytes: i64,
    pub status: SegmentStatus,
    pub created_at: i64,
    pub sealed_at: Option<i64>,
}

/// Reading back the stored name of a chunk state gives the state; the
/// stored names of two states differ.
pub proof fn lemma_chunk_status_names(a: ChunkStatus, b: ChunkStatus)
    ensures
        a != b ==> a.spec_name() != b.spec_name(),
{
    reveal_strlit("temp");
    reveal_strlit("committed");
    reveal_strlit("trash");
    reveal_strlit("deleted");
    if a != b {
        assert(a.spec_name().len() != b.spec_name().len() || a.spec_name()[0] != b.spec_name()[0]);
    }
}

/// The stored names of two object states differ.
pub proof fn lemma_object_status_names(a: ObjectStatus, b: ObjectStatus)
    ensures
        a != b ==> a.spec_name() != b.spec_name(),
{
    reveal_strlit("pending");
    reveal_strlit("committed");
    reveal_strlit("deleted");
    if a != b {
        assert(a.spec_name()[0] != b.spec_name()[0]);
    }
}

/// The stored names of two segment states differ.
pub proof fn lemma_segment_status_names(a: SegmentStatus, b: SegmentStatus)
    ensures
        a != b ==> a.spec_name() != b.spec_name(),
{
    reveal_strlit("open");
    reveal_strlit("sealed");
    reveal_strlit("compacting");
    reveal_strlit("deleted");
    if a != b {
        assert(a.spec_name()[0] != b.spec_name()[0]);
    }
}

} // verus!
