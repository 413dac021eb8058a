//! What a download produced, named by a reference whose meaning is left to
//! the storage that holds it.
use vstd::prelude::*;

verus! {

/// Where a task's output is, if it produced any.
#[derive(Debug, Clone, PartialEq, Eq)]
pub enum ArtifactRef {
    Present(String),
    Absent,
}

/// The output of one task.
#[derive(Debug, Clone, PartialEq, Eq)]
pub struct ArtifactPackage {
    task_id: String,
    artifact_ref: ArtifactRef,
}

/// The reference of an artifact, as characters.
pub open spec fn ref_view(r: ArtifactRef) -> Option<Seq<char>> {
    match r {
        ArtifactRef::Present(v) => Some(v@),
        ArtifactRef::Absent => None,
    }
}

impl ArtifactPackage {
    pub closed spec fn task_id_spec(&self) -> Seq<char> {
        self.task_id@
    }

    pub closed spec fn artifact_ref_spec(&self) -> ArtifactRef {
        self.artifact_ref
    }

    /// The output of task `task_id`, found at `ref_value`.
    pub fn present(task_id: String, ref_value: String) -> (r: ArtifactPackage)
        ensures
            r.task_id_spec() == task_id@,
            r.artifact_ref_spec() == ArtifactRef::Present(ref_value),
    {
        ArtifactPackage { task_id, artifact_ref: ArtifactRef::Present(ref_value) }
    }

    /// A task that produced no output.
    pub fn absent(task_id: String) -> (r: ArtifactPackage)
        ensures
            r.task_id_spec() == task_id@,
            r.artifact_ref_spec() == ArtifactRef::Absent,
    {
        ArtifactPackage { task_id, artifact_ref: ArtifactRef::Absent }
    }

    pub fn task_id(&self) -> (r: &str)
        ensures
            r@ == self.task_id_spec(),
    {
        self.task_id.as_str()
    }

    pub fn is_present(&self) -> (r: bool)
        ensures
            r == (self.artifact_ref_spec() is Present),
    {
        match &self.artifact_ref {
            ArtifactRef::Present(_) => true,
            ArtifactRef::Absent => false,
        }
    }

    pub fn artifact_ref(&self) -> (r: &ArtifactRef)
        ensures
            *r == self.artifact_ref_spec(),
    {
        &self.artifact_ref
    }

    pub fn ref_value(&self) -> (r: Option<&str>)
        ensures
            match r {
                Some(v) => ref_view(self.artifact_ref_spec()) == Some(v@),
                None => ref_view(self.artifact_ref_spec()) is None,
            },
    {
        match &self.artifact_ref {
            ArtifactRef::Present(value) => Some(value.as_str()),
            ArtifactRef::Absent => None,
        }
    }
}

} // verus!
