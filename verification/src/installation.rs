//! Handles of installed components.

use vstd::prelude::*;
use crate::metadata::{FlowError, FlowView};

verus! {

/// Where a component is installed.
#[derive(Debug, PartialEq, Eq)]
pub enum InstallationTarget {
    /// In the process-global registry.
    Global,
    /// On one scope.
    Scope {
        /// The scope.
        scope_id: String,
    },
}

/// Idempotent deregistration handle for one automatic memory installation.
#[derive(Debug, PartialEq, Eq)]
pub struct MemoryInstallation {
    target: InstallationTarget,
    name: String,
    closed: bool,
}

/// What an installation handle holds.
pub struct InstallationView {
    pub scope_id: Option<Seq<char>>,
    pub name: Seq<char>,
    pub closed: bool,
}

impl View for MemoryInstallation {
    type V = InstallationView;

    closed spec fn view(&self) -> InstallationView {
        InstallationView {
            scope_id: match self.target {
                InstallationTarget::Global => None,
                InstallationTarget::Scope { scope_id } => Some(scope_id@),
            },
            name: self.name@,
            closed: self.closed,
        }
    }
}

/// The view of what deregistering came to.
pub open spec fn removal(result: Result<bool, FlowError>) -> Result<bool, FlowView> {
    match result {
        Ok(removed) => Ok(removed),
        Err(error) => Err(error@),
    }
}

/// What closing an installation comes to, once deregistering was tried. A scope that is gone took
/// the installation with it.
pub open spec fn closing(installation: InstallationView, result: Result<bool, FlowView>) -> Result<
    bool,
    FlowView,
> {
    match result {
        Ok(removed) => Ok(removed),
        Err(FlowView::NotFound(message)) => if installation.scope_id is Some {
            Ok(false)
        } else {
            Err(FlowView::NotFound(message))
        },
        Err(error) => Err(error),
    }
}

impl MemoryInstallation {
    /// A handle for a component that was installed.
    pub fn new(target: InstallationTarget, name: &str) -> (r: Self)
        ensures
            r@ == (InstallationView {
                scope_id: match target {
                    InstallationTarget::Global => None,
                    InstallationTarget::Scope { scope_id } => Some(scope_id@),
                },
                name: name@,
                closed: false,
            }),
    {
        MemoryInstallation { target, name: name.to_owned(), closed: false }
    }

    /// Where the component is installed.
    pub fn target(&self) -> (r: &InstallationTarget)
        ensures
            match *r {
                InstallationTarget::Global => self@.scope_id is None,
                InstallationTarget::Scope { scope_id } => self@.scope_id == Some(scope_id@),
            },
    {
        &self.target
    }

    /// The name under which the component is installed.
    pub fn name(&self) -> (r: &str)
        ensures
            r@ == self@.name,
    {
        self.name.as_str()
    }

    /// Tells whether the component was deregistered.
    pub fn is_closed(&self) -> (r: bool)
        ensures
            r == self@.closed,
    {
        self.closed
    }

    /// Close the installation once deregistering was tried. An installation that is closed already
    /// stays so, and nothing was removed.
    pub fn close(&mut self, result: Result<bool, FlowError>) -> (r: Result<bool, FlowError>)
        ensures
            if old(self)@.closed {
                r == Ok::<bool, FlowError>(false) && final(self)@ == old(self)@
            } else {
                removal(r) == closing(old(self)@, removal(result)) && final(self)@ == (
                InstallationView { closed: r is Ok, ..old(self)@ })
            },
    {
        if self.closed {
            return Ok(false);
        }
        let removed = match result {
            Ok(removed) => removed,
            Err(FlowError::NotFound(message)) => {
                if matches!(self.target, InstallationTarget::Global) {
                    return Err(FlowError::NotFound(message));
                }
                false
            },
            Err(error) => {
                return Err(error);
            },
        };
        self.closed = true;
        Ok(removed)
    }
}

/// The place for one installation.
#[derive(Debug, PartialEq, Eq)]
pub struct InstallationSlot {
    installation: Option<MemoryInstallation>,
}

impl View for InstallationSlot {
    type V = Option<InstallationView>;

    closed spec fn view(&self) -> Option<InstallationView> {
        match self.installation {
            Some(installation) => Some(installation@),
            None => None,
        }
    }
}

impl InstallationSlot {
    /// An empty place.
    pub fn new() -> (r: Self)
        ensures
            r@ is None,
    {
        InstallationSlot { installation: None }
    }

    /// Why nothing can be installed, where something is installed already.
    pub fn occupied(&self) -> (r: Option<&'static str>)
        ensures
            match self@ {
                Some(_) => r matches Some(message) && message@
                    == "automatic memory is already installed"@,
                None => r is None,
            },
    {
        if self.installation.is_some() {
            Some("automatic memory is already installed")
        } else {
            None
        }
    }

    /// Remember what was installed.
    pub fn fill(&mut self, installation: MemoryInstallation)
        requires
            old(self)@ is None,
        ensures
            final(self)@ == Some(installation@),
    {
        self.installation = Some(installation);
    }

    /// Give up what was installed.
    pub fn take(&mut self) -> (r: Option<MemoryInstallation>)
        ensures
            final(self)@ is None,
            match old(self)@ {
                Some(view) => r matches Some(installation) && installation@ == view,
                None => r is None,
            },
    {
        self.installation.take()
    }
}

/// The name of an installation where none is given.
pub const DEFAULT_INSTALLATION_NAME: &'static str = "automatic_memory";

/// A count that fits in 32 bits, and the largest such number for a greater one.
pub fn saturated_count(count: usize) -> (r: u32)
    ensures
        r == if count <= u32::MAX { count as u32 } else { u32::MAX },
{
    if count <= u32::MAX as usize {
        count as u32
    } else {
        u32::MAX
    }
}

/// Closing hands on what deregistering came to. Only an installation whose scope is gone counts as
/// closed although there was nothing to remove.
pub proof fn closing_hands_on_the_result(
    installation: InstallationView,
    removed: bool,
    message: Seq<char>,
    error: FlowView,
)
    ensures
        closing(installation, Ok(removed)) == Ok::<bool, FlowView>(removed),
        installation.scope_id is Some ==> closing(installation, Err(FlowView::NotFound(message)))
            == Ok::<bool, FlowView>(false),
        installation.scope_id is None ==> closing(installation, Err(FlowView::NotFound(message)))
            == Err::<bool, FlowView>(FlowView::NotFound(message)),
        !(error is NotFound) ==> closing(installation, Err(error)) == Err::<bool, FlowView>(error),
{
}

} // verus!
