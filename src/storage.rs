use vstd::prelude::*;

verus! {

/// Failures of the storage operations.
#[derive(Debug, PartialEq, Eq)]
pub enum StorageError {
    MergeConflict(String),
    ApplyDiffError(String),
    SerializationError(String),
    IncompatibleTypes,
}

/// The contents of a list of strings.
pub open spec fn texts(v: Seq<String>) -> Seq<Seq<char>> {
    Seq::new(v.len(), |i: int| v[i]@)
}

/// Whether two lists of strings hold the same texts.
pub fn same_texts(a: &Vec<String>, b: &Vec<String>) -> (r: bool)
    ensures
        r == (texts(a@) == texts(b@)),
{
    if a.len() != b.len() {
        proof {
            assert(texts(a@).len() != texts(b@).len());
        }
        return false;
    }
    let mut i: usize = 0;
    while i < a.len()
        invariant
            a@.len() == b@.len(),
            i <= a@.len(),
            forall|j: int| 0 <= j < i ==> #[trigger] a@[j]@ == b@[j]@,
        decreases a@.len() - i,
    {
        if a[i] != b[i] {
            proof {
                assert(texts(a@)[i as int] != texts(b@)[i as int]);
            }
            return false;
        }
        i = i + 1;
    }
    assert(texts(a@) =~= texts(b@));
    true
}

/// A copy of a list of strings.
pub fn copy_texts(a: &Vec<String>) -> (r: Vec<String>)
    ensures
        texts(r@) == texts(a@),
{
    let mut out: Vec<String> = Vec::new();
    let mut i: usize = 0;
    while i < a.len()
        invariant
            i <= a@.len(),
            out@.len() == i,
            forall|j: int| 0 <= j < i ==> #[trigger] out@[j]@ == a@[j]@,
        decreases a@.len() - i,
    {
        out.push(a[i].clone());
        i = i + 1;
    }
    assert(texts(out@) =~= texts(a@));
    out
}

/// The shared document of a presentation room: which slide is shown, and each slide's
/// content as an opaque JSON text.
#[derive(Debug)]
pub struct PresentationStorage {
    current_slide: usize,
    slide_data: Vec<String>,
}

/// What a storage holds: the current slide and the slides' texts.
pub type StorageView = (usize, Seq<Seq<char>>);

/// A change from one storage state to another. It applies only to a storage with
/// `base_slide_count` slides; absent parts are left as they are.
#[derive(Debug)]
pub struct StorageDiff {
    pub base_slide_count: usize,
    pub current_slide: Option<usize>,
    pub slide_data: Option<Vec<String>>,
}

/// A persistable image of a storage, tagged with the storage kind it came from.
#[derive(Debug)]
pub struct StorageSnapshot {
    pub storage_type: String,
    pub current_slide: usize,
    pub slide_data: Vec<String>,
}

/// The kind tag of presentation storage.
pub open spec fn presentation_kind() -> Seq<char> {
    seq!['p', 'r', 'e', 's', 'e', 'n', 't', 'a', 't', 'i', 'o', 'n']
}

impl View for StorageDiff {
    type V = (nat, Option<usize>, Option<Seq<Seq<char>>>);

    open spec fn view(&self) -> (nat, Option<usize>, Option<Seq<Seq<char>>>) {
        (
            self.base_slide_count as nat,
            self.current_slide,
            match self.slide_data {
                Some(v) => Some(texts(v@)),
                None => None,
            },
        )
    }
}

impl View for StorageSnapshot {
    type V = (Seq<char>, usize, Seq<Seq<char>>);

    open spec fn view(&self) -> (Seq<char>, usize, Seq<Seq<char>>) {
        (self.storage_type@, self.current_slide, texts(self.slide_data@))
    }
}

/// The change from `a` to `b`: the slide count it applies to, and the parts that differ.
pub open spec fn spec_diff(a: StorageView, b: StorageView) -> (nat, Option<usize>, Option<Seq<Seq<char>>>) {
    (
        a.1.len(),
        if a.0 == b.0 { None } else { Some(b.0) },
        if a.1 == b.1 { None } else { Some(b.1) },
    )
}

/// The state after applying `d` to `s`, or `None` where `d` was made for another slide count.
pub open spec fn spec_apply(s: StorageView, d: (nat, Option<usize>, Option<Seq<Seq<char>>>)) -> Option<StorageView> {
    if d.0 != s.1.len() {
        None
    } else {
        Some((
            match d.1 {
                Some(c) => c,
                None => s.0,
            },
            match d.2 {
                Some(t) => t,
                None => s.1,
            },
        ))
    }
}

/// The image that `snapshot` takes of a storage state.
pub open spec fn spec_snapshot(s: StorageView) -> (Seq<char>, usize, Seq<Seq<char>>) {
    (presentation_kind(), s.0, s.1)
}

/// The storage state that `from_snapshot` rebuilds, or `None` for an image of another kind.
pub open spec fn spec_restore(v: (Seq<char>, usize, Seq<Seq<char>>)) -> Option<StorageView> {
    if v.0 == presentation_kind() {
        Some((v.1, v.2))
    } else {
        None
    }
}

/// A mergeable document that a room holds: it can state the change between two of its
/// states, apply such a change, reconcile with another copy, and be persisted and restored.
/// Each kind of storage proves the two round trips below.
pub trait StorageLike: View + Sized {
    type Diff: View;
    type Snapshot: View;

    spec fn spec_type_id() -> Seq<char>;

    /// The change from `a` to `b`.
    spec fn spec_diff(a: Self::V, b: Self::V) -> <Self::Diff as View>::V;

    /// The state after applying `d` to `s`, or `None` where `d` does not apply.
    spec fn spec_apply(s: Self::V, d: <Self::Diff as View>::V) -> Option<Self::V>;

    /// The reconciliation of `a` with `b`, or `None` where they conflict.
    spec fn spec_merge(a: Self::V, b: Self::V) -> Option<Self::V>;

    /// The image that a snapshot takes of `s`.
    spec fn spec_snapshot(s: Self::V) -> <Self::Snapshot as View>::V;

    /// The state restored from an image, or `None` for an image of another kind.
    spec fn spec_restore(v: <Self::Snapshot as View>::V) -> Option<Self::V>;

    fn storage_type_id(&self) -> (r: &'static str)
        ensures
            r@ == Self::spec_type_id(),
    ;

    fn diff(&self, other: &Self) -> (r: Self::Diff)
        ensures
            r@ == Self::spec_diff(self@, other@),
    ;

    /// Applies a change; refuses one that does not apply, and then changes nothing.
    fn apply_diff(&mut self, diff: &Self::Diff) -> (r: Result<(), StorageError>)
        ensures
            r is Ok <==> Self::spec_apply(old(self)@, diff@) is Some,
            r is Ok ==> Some(final(self)@) == Self::spec_apply(old(self)@, diff@),
            r is Err ==> final(self)@ == old(self)@,
            r matches Err(e) ==> e is ApplyDiffError,
    ;

    /// Reconciles with another copy; says whether anything changed. A conflict changes
    /// nothing.
    fn merge(&mut self, other: &Self) -> (r: Result<bool, StorageError>)
        ensures
            r is Ok <==> Self::spec_merge(old(self)@, other@) is Some,
            r is Ok ==> Some(final(self)@) == Self::spec_merge(old(self)@, other@),
            r matches Ok(changed) ==> changed == (old(self)@ != final(self)@),
            r is Err ==> final(self)@ == old(self)@,
            r matches Err(e) ==> e is MergeConflict,
    ;

    fn snapshot(&self) -> (r: Self::Snapshot)
        ensures
            r@ == Self::spec_snapshot(self@),
    ;

    /// Rebuilds a storage from its image; refuses an image of another kind.
    fn from_snapshot(snapshot: Self::Snapshot) -> (r: Result<Self, StorageError>)
        ensures
            r is Ok <==> Self::spec_restore(snapshot@) is Some,
            r matches Ok(s) ==> Some(s@) == Self::spec_restore(snapshot@),
            r matches Err(e) ==> e is IncompatibleTypes,
    ;

    /// Applying the change from `a` to `b` onto `a` gives `b`.
    proof fn lemma_diff_then_apply(a: Self::V, b: Self::V)
        ensures
            Self::spec_apply(a, Self::spec_diff(a, b)) == Some(b),
    ;

    /// Restoring the snapshot of a state gives back that state.
    proof fn lemma_snapshot_round_trip(s: Self::V)
        ensures
            Self::spec_restore(Self::spec_snapshot(s)) == Some(s),
    ;
}

impl View for PresentationStorage {
    type V = StorageView;

    closed spec fn view(&self) -> StorageView {
        (self.current_slide, texts(self.slide_data@))
    }
}

impl PresentationStorage {
    pub fn new(current_slide: usize, slide_data: Vec<String>) -> (r: PresentationStorage)
        ensures
            r@ == (current_slide, texts(slide_data@)),
    {
        PresentationStorage { current_slide, slide_data }
    }

    pub fn current_slide(&self) -> (r: usize)
        ensures
            r == self@.0,
    {
        self.current_slide
    }

    pub fn slide_data(&self) -> (r: &Vec<String>)
        ensures
            texts(r@) == self@.1,
    {
        &self.slide_data
    }

    pub fn set_current_slide(&mut self, slide_index: usize)
        ensures
            final(self)@ == (slide_index, old(self)@.1),
    {
        self.current_slide = slide_index;
    }

    pub fn duplicate(&self) -> (r: PresentationStorage)
        ensures
            r@ == self@,
    {
        PresentationStorage { current_slide: self.current_slide, slide_data: copy_texts(&self.slide_data) }
    }
}

/// Presentation storage reconciles only copies that hold the same slides, and then takes the
/// other copy's current slide.
pub open spec fn spec_merge(a: StorageView, b: StorageView) -> Option<StorageView> {
    if a.1 == b.1 {
        Some(b)
    } else {
        None
    }
}

impl StorageLike for PresentationStorage {
    type Diff = StorageDiff;
    type Snapshot = StorageSnapshot;

    open spec fn spec_type_id() -> Seq<char> {
        presentation_kind()
    }

    open spec fn spec_diff(a: StorageView, b: StorageView) -> (nat, Option<usize>, Option<Seq<Seq<char>>>) {
        spec_diff(a, b)
    }

    open spec fn spec_apply(s: StorageView, d: (nat, Option<usize>, Option<Seq<Seq<char>>>)) -> Option<StorageView> {
        spec_apply(s, d)
    }

    open spec fn spec_merge(a: StorageView, b: StorageView) -> Option<StorageView> {
        spec_merge(a, b)
    }

    open spec fn spec_snapshot(s: StorageView) -> (Seq<char>, usize, Seq<Seq<char>>) {
        spec_snapshot(s)
    }

    open spec fn spec_restore(v: (Seq<char>, usize, Seq<Seq<char>>)) -> Option<StorageView> {
        spec_restore(v)
    }

    fn storage_type_id(&self) -> (r: &'static str) {
        proof {
            reveal_strlit("presentation");
            assert("presentation"@ =~= presentation_kind());
        }
        "presentation"
    }

    /// Names only the parts that differ.
    fn diff(&self, other: &PresentationStorage) -> (r: StorageDiff) {
        let current_slide = if self.current_slide == other.current_slide {
            None
        } else {
            Some(other.current_slide)
        };
        let slide_data = if same_texts(&self.slide_data, &other.slide_data) {
            None
        } else {
            Some(copy_texts(&other.slide_data))
        };
        proof {
            assert(texts(self.slide_data@).len() == self.slide_data@.len());
        }
        StorageDiff { base_slide_count: self.slide_data.len(), current_slide, slide_data }
    }

    /// Refuses a change made against a storage of another slide count.
    fn apply_diff(&mut self, diff: &StorageDiff) -> (r: Result<(), StorageError>) {
        proof {
            assert(texts(self.slide_data@).len() == self.slide_data@.len());
        }
        if diff.base_slide_count != self.slide_data.len() {
            return Err(StorageError::ApplyDiffError("diff was made against another slide count".to_string()));
        }
        match diff.current_slide {
            Some(c) => {
                self.current_slide = c;
            },
            None => {},
        }
        match &diff.slide_data {
            Some(v) => {
                self.slide_data = copy_texts(v);
            },
            None => {},
        }
        Ok(())
    }

    fn merge(&mut self, other: &PresentationStorage) -> (r: Result<bool, StorageError>) {
        if !same_texts(&self.slide_data, &other.slide_data) {
            return Err(StorageError::MergeConflict("the copies hold different slides".to_string()));
        }
        let changed = self.current_slide != other.current_slide;
        self.current_slide = other.current_slide;
        Ok(changed)
    }

    fn snapshot(&self) -> (r: StorageSnapshot) {
        proof {
            reveal_strlit("presentation");
            assert("presentation"@ =~= presentation_kind());
        }
        StorageSnapshot {
            storage_type: String::from_str("presentation"),
            current_slide: self.current_slide,
            slide_data: copy_texts(&self.slide_data),
        }
    }

    fn from_snapshot(snapshot: StorageSnapshot) -> (r: Result<PresentationStorage, StorageError>) {
        proof {
            reveal_strlit("presentation");
            assert("presentation"@ =~= presentation_kind());
        }
        let kind = String::from_str("presentation");
        if snapshot.storage_type != kind {
            return Err(StorageError::IncompatibleTypes);
        }
        Ok(PresentationStorage { current_slide: snapshot.current_slide, slide_data: snapshot.slide_data })
    }

    proof fn lemma_diff_then_apply(a: StorageView, b: StorageView) {
    }

    proof fn lemma_snapshot_round_trip(s: StorageView) {
    }
}

} // verus!
