//! Validating the paths of the repositories before a query runs.

use vstd::prelude::*;

verus! {

/// The progress of opening the repositories one after the other, in the
/// order of their paths. The first path that cannot be opened ends it: no
/// later path is tried.
#[derive(Debug, PartialEq)]
pub struct RepositoryValidation {
    paths: usize,
    opened: usize,
    failure: Option<String>,
}

/// The model of a [`RepositoryValidation`].
pub struct ValidationView {
    pub paths: nat,
    pub opened: nat,
    pub failure: Option<Seq<char>>,
}

impl ValidationView {
    /// The invariant: no more repositories are open than there are paths.
    pub open spec fn wf(self) -> bool {
        self.opened <= self.paths
    }

    /// The index of the path that is to be opened next, where there is one:
    /// none after a failure, and none once all the paths are open.
    pub open spec fn pending(self) -> Option<nat> {
        if self.failure is None && self.opened < self.paths {
            Some(self.opened)
        } else {
            None
        }
    }

    /// What the validation has come to: the message of the failure, or the
    /// number of repositories that are open.
    pub open spec fn outcome(self) -> Result<nat, Seq<char>> {
        match self.failure {
            Some(message) => Err(message),
            None => Ok(self.opened),
        }
    }
}

impl View for RepositoryValidation {
    type V = ValidationView;

    closed spec fn view(&self) -> ValidationView {
        ValidationView {
            paths: self.paths as nat,
            opened: self.opened as nat,
            failure: match self.failure {
                Some(message) => Some(message@),
                None => None,
            },
        }
    }
}

/// The text that names the failure of the validation to the host.
pub open spec fn invalid_repositories_text() -> Seq<char> {
    "Invalid repositories paths"@
}

impl RepositoryValidation {
    #[verifier::type_invariant]
    spec fn inv(self) -> bool {
        self@.wf()
    }

    /// The validation of `paths` paths, none of them opened yet.
    pub fn new(paths: usize) -> (validation: RepositoryValidation)
        ensures
            validation@ == (ValidationView { paths: paths as nat, opened: 0, failure: None }),
    {
        RepositoryValidation { paths, opened: 0, failure: None }
    }

    /// The index of the path that is to be opened next.
    pub fn next(&self) -> (index: Option<usize>)
        ensures
            self@.wf(),
            match index {
                Some(i) => self@.pending() == Some(i as nat),
                None => self@.pending() is None,
            },
    {
        proof {
            use_type_invariant(self);
        }
        if self.failure.is_none() && self.opened < self.paths {
            Some(self.opened)
        } else {
            None
        }
    }

    /// Records that the pending path was opened.
    pub fn opened(&mut self)
        requires
            old(self)@.pending() is Some,
        ensures
            final(self)@ == (ValidationView { opened: old(self)@.opened + 1, ..old(self)@ }),
            final(self)@.wf(),
    {
        proof {
            use_type_invariant(&*self);
        }
        self.opened = self.opened + 1;
    }

    /// Records that the pending path could not be opened, with the message
    /// of the error.
    pub fn failed(&mut self, message: String)
        requires
            old(self)@.pending() is Some,
        ensures
            final(self)@ == (ValidationView { failure: Some(message@), ..old(self)@ }),
            final(self)@.pending() is None,
    {
        proof {
            use_type_invariant(&*self);
        }
        self.failure = Some(message);
    }

    /// Ends the validation: the number of repositories that are open, or
    /// the message of the path that failed.
    pub fn finish(self) -> (outcome: Result<usize, String>)
        ensures
            self@.wf(),
            match outcome {
                Ok(count) => self@.outcome() == Ok::<nat, Seq<char>>(count as nat),
                Err(message) => self@.outcome() == Err::<nat, Seq<char>>(message@),
            },
    {
        proof {
            use_type_invariant(&self);
        }
        match self.failure {
            Some(message) => Err(message),
            None => Ok(self.opened),
        }
    }
}

/// The text that the host is given when the validation has failed.
pub fn invalid_repositories_label() -> (label: String)
    ensures
        label@ == invalid_repositories_text(),
{
    "Invalid repositories paths".to_owned()
}

/// A validation that is left alone once nothing is pending has opened every
/// path, or has failed; and after a failure nothing is pending, so that no
/// later path is tried and no part of what was opened is returned.
pub proof fn lemma_validation_ends(validation: ValidationView)
    requires
        validation.wf(),
        validation.pending() is None,
    ensures
        validation.outcome() is Ok ==> validation.outcome()->Ok_0 == validation.paths,
        validation.failure is Some ==> validation.outcome() is Err,
{
}

} // verus!
