//! One fetch through the response cache, step by step. The caller performs
//! each operation on the file system or the network and reports how it went;
//! the steps decide what comes next.

use vstd::prelude::*;

verus! {

/// What a fetch asks its caller to do next.
#[derive(Debug, Clone, Copy, PartialEq, Eq, Structural)]
pub enum Operation {
    /// Open the cache file for reading.
    Open,
    /// Take the shared lock of the open file; wait while a writer holds it.
    LockShared,
    /// Read the whole file.
    Read,
    /// Create the cache file, only if there is none yet.
    Create,
    /// Take the exclusive lock of the new file.
    LockExclusive,
    /// Get the document from the network.
    Download,
    /// Write the document to the file, all of it.
    Write,
}

/// How an operation went.
#[derive(Debug)]
pub enum Outcome {
    /// It is done, with nothing to hand over.
    Succeeded,
    /// It is done, and this is what was read or downloaded.
    Data(String),
    /// The file could not be created because there is one now.
    Exists,
    /// It failed.
    Failed,
}

/// Where a fetch stands.
#[derive(Debug)]
pub enum Fetch {
    Opening,
    LockingShared,
    Reading,
    Creating,
    LockingExclusive,
    Downloading,
    /// The document has come and is to be written.
    Writing(String),
    /// The fetch has ended with the document.
    Done(String),
    /// The fetch has ended because this operation failed.
    Failed(Operation),
}

/// The mathematical value of an [`Outcome`].
pub enum OutcomeView {
    Succeeded,
    Data(Seq<char>),
    Exists,
    Failed,
}

/// The mathematical value of a [`Fetch`].
pub enum FetchView {
    Opening,
    LockingShared,
    Reading,
    Creating,
    LockingExclusive,
    Downloading,
    Writing(Seq<char>),
    Done(Seq<char>),
    Failed(Operation),
}

impl View for Outcome {
    type V = OutcomeView;

    open spec fn view(&self) -> OutcomeView {
        match self {
            Outcome::Succeeded => OutcomeView::Succeeded,
            Outcome::Data(text) => OutcomeView::Data(text@),
            Outcome::Exists => OutcomeView::Exists,
            Outcome::Failed => OutcomeView::Failed,
        }
    }
}

impl View for Fetch {
    type V = FetchView;

    open spec fn view(&self) -> FetchView {
        match self {
            Fetch::Opening => FetchView::Opening,
            Fetch::LockingShared => FetchView::LockingShared,
            Fetch::Reading => FetchView::Reading,
            Fetch::Creating => FetchView::Creating,
            Fetch::LockingExclusive => FetchView::LockingExclusive,
            Fetch::Downloading => FetchView::Downloading,
            Fetch::Writing(text) => FetchView::Writing(text@),
            Fetch::Done(text) => FetchView::Done(text@),
            Fetch::Failed(op) => FetchView::Failed(*op),
        }
    }
}

impl FetchView {
    /// The operation that the fetch asks for; `None` once it has ended.
    pub open spec fn operation(self) -> Option<Operation> {
        match self {
            FetchView::Opening => Some(Operation::Open),
            FetchView::LockingShared => Some(Operation::LockShared),
            FetchView::Reading => Some(Operation::Read),
            FetchView::Creating => Some(Operation::Create),
            FetchView::LockingExclusive => Some(Operation::LockExclusive),
            FetchView::Downloading => Some(Operation::Download),
            FetchView::Writing(_) => Some(Operation::Write),
            FetchView::Done(_) => None,
            FetchView::Failed(_) => None,
        }
    }

    /// Where the fetch stands after its operation went as `outcome` says.
    ///
    /// A file that opens is locked and read, and what was read is the
    /// document. A file that does not open is created; where there is one
    /// by then, the fetch opens again. The new file is locked, the document
    /// downloaded and written, and what was downloaded is the document. Any
    /// other outcome ends the fetch as failed at that operation, and a fetch
    /// that has ended stays as it is.
    pub open spec fn next(self, outcome: OutcomeView) -> FetchView {
        match (self, outcome) {
            (FetchView::Opening, OutcomeView::Succeeded) => FetchView::LockingShared,
            (FetchView::Opening, OutcomeView::Failed) => FetchView::Creating,
            (FetchView::LockingShared, OutcomeView::Succeeded) => FetchView::Reading,
            (FetchView::Reading, OutcomeView::Data(text)) => FetchView::Done(text),
            (FetchView::Creating, OutcomeView::Succeeded) => FetchView::LockingExclusive,
            (FetchView::Creating, OutcomeView::Exists) => FetchView::Opening,
            (FetchView::LockingExclusive, OutcomeView::Succeeded) => FetchView::Downloading,
            (FetchView::Downloading, OutcomeView::Data(text)) => FetchView::Writing(text),
            (FetchView::Writing(text), OutcomeView::Succeeded) => FetchView::Done(text),
            (FetchView::Done(text), _) => FetchView::Done(text),
            (FetchView::Failed(op), _) => FetchView::Failed(op),
            (state, _) => FetchView::Failed(state.operation()->0),
        }
    }

    /// Whether the fetch has created the file and not yet downloaded.
    pub open spec fn owes_download(self) -> bool {
        self is LockingExclusive || self is Downloading
    }

    /// Where the fetch stands after a run of outcomes.
    pub open spec fn run(self, outcomes: Seq<OutcomeView>) -> FetchView
        decreases outcomes.len(),
    {
        if outcomes.len() == 0 {
            self
        } else {
            self.next(outcomes[0]).run(outcomes.skip(1))
        }
    }

    /// How often the fetch downloads in a run of outcomes.
    pub open spec fn downloads(self, outcomes: Seq<OutcomeView>) -> nat
        decreases outcomes.len(),
    {
        if outcomes.len() == 0 {
            0
        } else {
            self.next(outcomes[0]).downloads(outcomes.skip(1)) + if self is Downloading {
                1nat
            } else {
                0nat
            }
        }
    }

    /// How often the fetch creates the file in a run of outcomes.
    pub open spec fn creations(self, outcomes: Seq<OutcomeView>) -> nat
        decreases outcomes.len(),
    {
        if outcomes.len() == 0 {
            0
        } else {
            self.next(outcomes[0]).creations(outcomes.skip(1)) + if self is Creating
                && outcomes[0] is Succeeded {
                1nat
            } else {
                0nat
            }
        }
    }
}

impl Fetch {
    /// A fetch at its beginning.
    pub fn new() -> (fetch: Fetch)
        ensures
            fetch@ == FetchView::Opening,
    {
        Fetch::Opening
    }

    /// The operation that the fetch asks for; `None` once it has ended.
    pub fn operation(&self) -> (op: Option<Operation>)
        ensures
            op == self@.operation(),
    {
        match self {
            Fetch::Opening => Some(Operation::Open),
            Fetch::LockingShared => Some(Operation::LockShared),
            Fetch::Reading => Some(Operation::Read),
            Fetch::Creating => Some(Operation::Create),
            Fetch::LockingExclusive => Some(Operation::LockExclusive),
            Fetch::Downloading => Some(Operation::Download),
            Fetch::Writing(_) => Some(Operation::Write),
            Fetch::Done(_) => None,
            Fetch::Failed(_) => None,
        }
    }

    /// The document: the one to write, or the one that the fetch ended with.
    pub fn document(&self) -> (text: Option<&String>)
        ensures
            match text {
                Some(t) => self@ == FetchView::Writing(t@) || self@ == FetchView::Done(t@),
                None => !(self@ is Writing) && !(self@ is Done),
            },
    {
        match self {
            Fetch::Writing(text) => Some(text),
            Fetch::Done(text) => Some(text),
            _ => None,
        }
    }

    /// Takes the outcome of the operation asked for.
    pub fn step(self, outcome: Outcome) -> (next: Fetch)
        ensures
            next@ == self@.next(outcome@),
    {
        match self {
            Fetch::Opening => match outcome {
                Outcome::Succeeded => Fetch::LockingShared,
                Outcome::Failed => Fetch::Creating,
                _ => Fetch::Failed(Operation::Open),
            },
            Fetch::LockingShared => match outcome {
                Outcome::Succeeded => Fetch::Reading,
                _ => Fetch::Failed(Operation::LockShared),
            },
            Fetch::Reading => match outcome {
                Outcome::Data(text) => Fetch::Done(text),
                _ => Fetch::Failed(Operation::Read),
            },
            Fetch::Creating => match outcome {
                Outcome::Succeeded => Fetch::LockingExclusive,
                Outcome::Exists => Fetch::Opening,
                _ => Fetch::Failed(Operation::Create),
            },
            Fetch::LockingExclusive => match outcome {
                Outcome::Succeeded => Fetch::Downloading,
                _ => Fetch::Failed(Operation::LockExclusive),
            },
            Fetch::Downloading => match outcome {
                Outcome::Data(text) => Fetch::Writing(text),
                _ => Fetch::Failed(Operation::Download),
            },
            Fetch::Writing(text) => match outcome {
                Outcome::Succeeded => Fetch::Done(text),
                _ => Fetch::Failed(Operation::Write),
            },
            Fetch::Done(text) => Fetch::Done(text),
            Fetch::Failed(op) => Fetch::Failed(op),
        }
    }
}

/// A fetch downloads only after it has created the file itself, and does
/// both at most once, however its operations go.
pub proof fn lemma_download_follows_creation(state: FetchView, outcomes: Seq<OutcomeView>)
    ensures
        state.downloads(outcomes) <= 1,
        state.creations(outcomes) <= 1,
        state is Opening || state is Creating ==> state.downloads(outcomes) <= state.creations(
            outcomes,
        ),
        !state.owes_download() && !(state is Opening) && !(state is Creating) ==> state.downloads(
            outcomes,
        ) == 0,
        !(state is Opening) && !(state is Creating) ==> state.creations(outcomes) == 0,
    decreases outcomes.len(),
{
    if outcomes.len() > 0 {
        lemma_download_follows_creation(state.next(outcomes[0]), outcomes.skip(1));
    }
}

/// A fetch whose file opens at the first attempt does not download.
pub proof fn lemma_hit_does_not_download(outcomes: Seq<OutcomeView>)
    requires
        outcomes.len() > 0,
        outcomes[0] is Succeeded,
    ensures
        FetchView::Opening.downloads(outcomes) == 0,
{
    lemma_download_follows_creation(FetchView::LockingShared, outcomes.skip(1));
}

/// A fetch with nobody beside it, on a file system where nothing fails: its
/// state, the cache files with their contents, and how often it downloaded.
pub struct LoneFetch {
    pub state: FetchView,
    pub files: Map<Seq<char>, Seq<char>>,
    pub downloads: nat,
}

impl LoneFetch {
    /// A fetch at its beginning.
    pub open spec fn begin(files: Map<Seq<char>, Seq<char>>) -> LoneFetch {
        LoneFetch { state: FetchView::Opening, files, downloads: 0 }
    }

    /// How the operation asked for goes. The file opens if it is there, and
    /// is created if it is not; locks are free; a file reads as it was
    /// written; the network gives `body`, or fails where there is none.
    pub open spec fn outcome(self, path: Seq<char>, body: Option<Seq<char>>) -> OutcomeView {
        match self.state {
            FetchView::Opening => if self.files.contains_key(path) {
                OutcomeView::Succeeded
            } else {
                OutcomeView::Failed
            },
            FetchView::Reading => OutcomeView::Data(self.files[path]),
            FetchView::Creating => if self.files.contains_key(path) {
                OutcomeView::Exists
            } else {
                OutcomeView::Succeeded
            },
            FetchView::Downloading => match body {
                Some(text) => OutcomeView::Data(text),
                None => OutcomeView::Failed,
            },
            _ => OutcomeView::Succeeded,
        }
    }

    /// The fetch after its next operation. A file is empty when it has been
    /// created, and holds the document when that has been written.
    pub open spec fn step(self, path: Seq<char>, body: Option<Seq<char>>) -> LoneFetch {
        let outcome = self.outcome(path, body);
        LoneFetch {
            state: self.state.next(outcome),
            files: match self.state {
                FetchView::Creating => if outcome is Succeeded {
                    self.files.insert(path, Seq::empty())
                } else {
                    self.files
                },
                FetchView::Writing(text) => self.files.insert(path, text),
                _ => self.files,
            },
            downloads: self.downloads + if self.state is Downloading {
                1nat
            } else {
                0nat
            },
        }
    }

    /// The fetch after `steps` operations.
    pub open spec fn run(self, path: Seq<char>, body: Option<Seq<char>>, steps: nat) -> LoneFetch
        decreases steps,
    {
        if steps == 0 {
            self
        } else {
            self.step(path, body).run(path, body, (steps - 1) as nat)
        }
    }
}

/// The number of operations within which a fetch with nobody beside it ends.
pub open spec fn lone_steps() -> nat {
    5
}

/// Idempotence of the cache, where nothing but the network fails: a fetch
/// ends within five operations; a fetch of the same address after it does
/// not download, and where the first ended with a document, the second ends
/// with the same.
pub proof fn lemma_second_fetch_repeats_the_first(
    files: Map<Seq<char>, Seq<char>>,
    path: Seq<char>,
    body: Option<Seq<char>>,
    body_then: Option<Seq<char>>,
)
    ensures
        ({
            let first = LoneFetch::begin(files).run(path, body, lone_steps());
            let second = LoneFetch::begin(first.files).run(path, body_then, lone_steps());
            &&& first.state.operation() is None
            &&& first.state is Done <==> files.contains_key(path) || body is Some
            &&& first.downloads == if files.contains_key(path) {
                0nat
            } else {
                1nat
            }
            &&& second.downloads == 0
            &&& second.files == first.files
            &&& first.state is Done ==> second.state == first.state
        }),
{
    reveal_with_fuel(LoneFetch::run, 6);
    let first = LoneFetch::begin(files).run(path, body, lone_steps());
    assert(first.files.contains_key(path));
    if files.contains_key(path) {
        assert(first.files == files);
    } else if body is Some {
        assert(first.files == files.insert(path, Seq::empty()).insert(path, body->0));
    } else {
        assert(first.files == files.insert(path, Seq::empty()));
    }
}

/// Fetches of one address side by side: whether the cache file is there,
/// where each fetch stands, and how often any of them has downloaded.
pub struct SharedFetches {
    pub exists: bool,
    pub fetches: Seq<FetchView>,
    pub downloads: nat,
}

/// How many of the fetches have created the file and not yet downloaded.
pub open spec fn owing(fetches: Seq<FetchView>) -> nat
    decreases fetches.len(),
{
    if fetches.len() == 0 {
        0
    } else {
        owing(fetches.drop_last()) + if fetches.last().owes_download() {
            1nat
        } else {
            0nat
        }
    }
}

impl SharedFetches {
    /// `n` fetches at their beginning.
    pub open spec fn begin(n: nat, exists: bool) -> SharedFetches {
        SharedFetches { exists, fetches: Seq::new(n, |i: int| FetchView::Opening), downloads: 0 }
    }

    /// Whether the operation of fetch `who` can go as `outcome` says: a file
    /// is created only where there is none. Everything else may go either way.
    pub open spec fn admits(self, who: int, outcome: OutcomeView) -> bool {
        &&& 0 <= who < self.fetches.len()
        &&& self.fetches[who] is Creating && outcome is Succeeded ==> !self.exists
    }

    /// The fetches after the operation of fetch `who` went as `outcome` says.
    /// A file that has been created stays.
    pub open spec fn step(self, who: int, outcome: OutcomeView) -> SharedFetches {
        SharedFetches {
            exists: self.exists || (self.fetches[who] is Creating && outcome is Succeeded),
            fetches: self.fetches.update(who, self.fetches[who].next(outcome)),
            downloads: self.downloads + if self.fetches[who] is Downloading {
                1nat
            } else {
                0nat
            },
        }
    }

    /// Whether each step of `schedule`, a fetch and the outcome of its
    /// operation, can go so in its turn.
    pub open spec fn admits_all(self, schedule: Seq<(int, OutcomeView)>) -> bool
        decreases schedule.len(),
    {
        schedule.len() > 0 ==> {
            let (who, outcome) = schedule[0];
            self.admits(who, outcome) && self.step(who, outcome).admits_all(schedule.skip(1))
        }
    }

    /// The fetches after the steps of `schedule`.
    pub open spec fn run(self, schedule: Seq<(int, OutcomeView)>) -> SharedFetches
        decreases schedule.len(),
    {
        if schedule.len() == 0 {
            self
        } else {
            let (who, outcome) = schedule[0];
            self.step(who, outcome).run(schedule.skip(1))
        }
    }

    /// The downloads done and owed are one at most, and none while the file
    /// is not there.
    pub open spec fn settled(self) -> bool {
        self.downloads + owing(self.fetches) <= if self.exists {
            1nat
        } else {
            0nat
        }
    }
}

/// What one fetch that moves changes in the number of those that owe a download.
pub proof fn lemma_owing_update(fetches: Seq<FetchView>, who: int, state: FetchView)
    requires
        0 <= who < fetches.len(),
    ensures
        owing(fetches.update(who, state)) + if fetches[who].owes_download() {
            1nat
        } else {
            0nat
        } == owing(fetches) + if state.owes_download() {
            1nat
        } else {
            0nat
        },
    decreases fetches.len(),
{
    if who == fetches.len() - 1 {
        assert(fetches.update(who, state).drop_last() =~= fetches.drop_last());
    } else {
        lemma_owing_update(fetches.drop_last(), who, state);
        assert(fetches.update(who, state).drop_last() =~= fetches.drop_last().update(who, state));
    }
}

/// Fetches at their beginning owe no download.
pub proof fn lemma_owing_begin(n: nat)
    ensures
        owing(Seq::new(n, |i: int| FetchView::Opening)) == 0,
    decreases n,
{
    if n > 0 {
        lemma_owing_begin((n - 1) as nat);
        assert(Seq::new(n, |i: int| FetchView::Opening).drop_last() =~= Seq::new(
            (n - 1) as nat,
            |i: int| FetchView::Opening,
        ));
    }
}

/// Mutual exclusion of the writers. Any number of fetches of one address,
/// in whatever order their operations come and however they go, download
/// once at most between them, where a file is created only while there is
/// none.
pub proof fn lemma_one_download_between_all(
    start: SharedFetches,
    schedule: Seq<(int, OutcomeView)>,
)
    requires
        start.settled(),
        start.admits_all(schedule),
    ensures
        start.run(schedule).settled(),
        start.run(schedule).downloads <= 1,
    decreases schedule.len(),
{
    if schedule.len() > 0 {
        let (who, outcome) = schedule[0];
        lemma_owing_update(start.fetches, who, start.fetches[who].next(outcome));
        lemma_one_download_between_all(start.step(who, outcome), schedule.skip(1));
    }
}

/// Fetches at their beginning download once at most between them.
pub proof fn lemma_one_download_from_the_beginning(
    n: nat,
    exists: bool,
    schedule: Seq<(int, OutcomeView)>,
)
    requires
        SharedFetches::begin(n, exists).admits_all(schedule),
    ensures
        SharedFetches::begin(n, exists).run(schedule).downloads <= 1,
{
    lemma_owing_begin(n);
    lemma_one_download_between_all(SharedFetches::begin(n, exists), schedule);
}

} // verus!
