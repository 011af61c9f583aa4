//! What the runtime actions dialog has selected: a project, one of its targets and devices,
//! and an action, kept consistent with the detected projects.

use vstd::prelude::*;
use crate::text::{owned, copy_string, opt_view};
use crate::app_runtime::{DetectedProject, ExecutionRequest, RuntimeAction, RuntimeCatalog};

verus! {

/// The selection of the runtime actions dialog. `catalog` is `None` while detection runs.
pub struct RuntimeSelection {
    pub catalog: Option<RuntimeCatalog>,
    pub selected_project_index: usize,
    pub selected_target_index: usize,
    pub selected_device_index: Option<usize>,
    pub selected_action: RuntimeAction,
    pub status_message: Option<String>,
}

/// The message shown when no project was detected at the selected index.
pub open spec fn no_project_message() -> Seq<char> {
    "No runnable Apple project was detected."@
}

/// What an execution request asks for: project, target, device and action.
pub open spec fn request_view(r: ExecutionRequest) -> (Seq<char>, Seq<char>, Option<Seq<char>>, RuntimeAction) {
    (r.project_id@, r.target_id@, opt_view(r.device_id), r.action)
}

impl RuntimeSelection {
    /// The selected project, when detection has finished and the index is in range.
    pub open spec fn spec_project(self) -> Option<DetectedProject> {
        match self.catalog {
            Some(c) => if self.selected_project_index < c.projects.len() {
                Some(c.projects@[self.selected_project_index as int])
            } else {
                None
            },
            None => None,
        }
    }

    /// The selected target's index, when it is in range for the selected project.
    pub open spec fn spec_target_in_range(self) -> bool {
        self.spec_project() matches Some(p) && self.selected_target_index < p.targets.len()
    }

    /// The identifier of the selected device, when one is selected and in range.
    pub open spec fn spec_device_id(self) -> Option<Seq<char>> {
        match (self.spec_project(), self.selected_device_index) {
            (Some(p), Some(i)) => if i < p.devices.len() { Some(p.devices@[i as int].id@) } else { None },
            _ => None,
        }
    }

    /// The request the selection makes, or the message shown instead.
    pub open spec fn spec_request(self) -> Result<(Seq<char>, Seq<char>, Option<Seq<char>>, RuntimeAction), Seq<char>> {
        if self.catalog is None {
            Err("Runtime detection is still loading."@)
        } else if self.spec_project() is None {
            Err(no_project_message())
        } else if !self.spec_target_in_range() {
            Err("No shared Xcode scheme was detected."@)
        } else {
            let p = self.spec_project()->0;
            Ok((p.id@, p.targets@[self.selected_target_index as int].id@, self.spec_device_id(), self.selected_action))
        }
    }

    /// A selection waiting for detection, set to run.
    pub fn new() -> (s: Self)
        ensures
            s.catalog is None,
            s.selected_project_index == 0,
            s.selected_target_index == 0,
            s.selected_device_index is None,
            s.selected_action == RuntimeAction::Run,
            s.status_message is None,
    {
        RuntimeSelection {
            catalog: None,
            selected_project_index: 0,
            selected_target_index: 0,
            selected_device_index: None,
            selected_action: RuntimeAction::Run,
            status_message: None,
        }
    }

    /// The selected project.
    pub fn selected_project(&self) -> (r: Option<&DetectedProject>)
        ensures
            match r {
                Some(p) => self.spec_project() == Some(*p),
                None => self.spec_project() is None,
            },
    {
        match &self.catalog {
            Some(c) => if self.selected_project_index < c.projects.len() {
                Some(&c.projects[self.selected_project_index])
            } else {
                None
            },
            None => None,
        }
    }

    /// Makes the indices fit the detected projects: no project selects the first one and
    /// says so; a target or device out of range falls back to the first; devices are
    /// selected whenever the project has one.
    pub fn reset_selection(&mut self)
        ensures
            final(self).catalog == old(self).catalog,
            final(self).selected_action == old(self).selected_action,
            old(self).catalog is None ==> {
                &&& final(self).selected_project_index == 0
                &&& final(self).selected_target_index == 0
                &&& final(self).selected_device_index is None
                &&& final(self).status_message is None
            },
            old(self).catalog is Some && old(self).spec_project() is None ==> {
                &&& final(self).selected_project_index == 0
                &&& final(self).selected_target_index == 0
                &&& final(self).selected_device_index is None
                &&& final(self).status_message matches Some(m) && m@ == no_project_message()
            },
            old(self).spec_project() matches Some(p) ==> {
                &&& final(self).selected_project_index == old(self).selected_project_index
                &&& final(self).selected_target_index == (if old(self).selected_target_index >= p.targets.len() {
                    0
                } else {
                    old(self).selected_target_index
                })
                &&& final(self).selected_device_index == (if p.devices.len() == 0 {
                    None
                } else {
                    match old(self).selected_device_index {
                        Some(i) => if i >= p.devices.len() { Some(0usize) } else { Some(i) },
                        None => Some(0usize),
                    }
                })
                &&& final(self).status_message is None
            },
    {
        let (targets, devices) = match self.selected_project() {
            Some(p) => (p.targets.len(), p.devices.len()),
            None => {
                let message = if self.catalog.is_some() {
                    Some(owned("No runnable Apple project was detected."))
                } else {
                    None
                };
                self.selected_project_index = 0;
                self.selected_target_index = 0;
                self.selected_device_index = None;
                self.status_message = message;
                return;
            },
        };
        if self.selected_target_index >= targets {
            self.selected_target_index = 0;
        }
        self.selected_device_index = if devices == 0 {
            None
        } else {
            match self.selected_device_index {
                Some(i) => if i >= devices { Some(0) } else { Some(i) },
                None => Some(0),
            }
        };
        self.status_message = None;
    }

    /// Takes the detected projects and fits the selection to them.
    pub fn set_catalog(&mut self, catalog: RuntimeCatalog)
        ensures
            final(self).catalog == Some(catalog),
            final(self).selected_action == old(self).selected_action,
            old(self).selected_project_index >= catalog.projects.len() ==> {
                &&& final(self).selected_project_index == 0
                &&& final(self).selected_target_index == 0
                &&& final(self).selected_device_index is None
                &&& final(self).status_message matches Some(m) && m@ == no_project_message()
            },
            old(self).selected_project_index < catalog.projects.len() ==> {
                let p = catalog.projects@[old(self).selected_project_index as int];
                &&& final(self).selected_project_index == old(self).selected_project_index
                &&& final(self).selected_target_index == (if old(self).selected_target_index >= p.targets.len() {
                    0
                } else {
                    old(self).selected_target_index
                })
                &&& final(self).selected_device_index == (if p.devices.len() == 0 {
                    None
                } else {
                    match old(self).selected_device_index {
                        Some(i) => if i >= p.devices.len() { Some(0usize) } else { Some(i) },
                        None => Some(0usize),
                    }
                })
                &&& final(self).status_message is None
            },
    {
        self.catalog = Some(catalog);
        self.reset_selection();
    }

    /// Selects a project, with its first target, and fits the rest of the selection to it.
    pub fn choose_project(&mut self, project_index: usize)
        ensures
            final(self).catalog == old(self).catalog,
            final(self).selected_action == old(self).selected_action,
            old(self).catalog is None ==> final(self).selected_project_index == 0 && final(self).status_message is None,
            old(self).catalog matches Some(c) ==> if project_index < c.projects.len() {
                let p = c.projects@[project_index as int];
                &&& final(self).selected_project_index == project_index
                &&& final(self).selected_target_index == 0
                &&& final(self).selected_device_index == (if p.devices.len() == 0 { None } else { Some(0usize) })
                &&& final(self).status_message is None
            } else {
                &&& final(self).selected_project_index == 0
                &&& final(self).selected_target_index == 0
                &&& final(self).selected_device_index is None
                &&& final(self).status_message matches Some(m) && m@ == no_project_message()
            },
    {
        self.selected_project_index = project_index;
        self.selected_target_index = 0;
        self.selected_device_index = None;
        self.reset_selection();
    }

    /// Selects a target and clears the message.
    pub fn choose_target(&mut self, target_index: usize)
        ensures
            *final(self) == (RuntimeSelection { selected_target_index: target_index, status_message: None, ..*old(self) }),
    {
        self.selected_target_index = target_index;
        self.status_message = None;
    }

    /// Selects a device and clears the message.
    pub fn choose_device(&mut self, device_index: usize)
        ensures
            *final(self) == (RuntimeSelection { selected_device_index: Some(device_index), status_message: None, ..*old(self) }),
    {
        self.selected_device_index = Some(device_index);
        self.status_message = None;
    }

    /// Selects an action and clears the message.
    pub fn choose_action(&mut self, action: RuntimeAction)
        ensures
            *final(self) == (RuntimeSelection { selected_action: action, status_message: None, ..*old(self) }),
    {
        self.selected_action = action;
        self.status_message = None;
    }

    /// The request to plan for the selection, or the message to show instead.
    pub fn execution_request(&self) -> (r: Result<ExecutionRequest, String>)
        ensures
            match (r, self.spec_request()) {
                (Ok(req), Ok(v)) => request_view(req) == v,
                (Err(m), Err(v)) => m@ == v,
                _ => false,
            },
    {
        if self.catalog.is_none() {
            return Err(owned("Runtime detection is still loading."));
        }
        let project = match self.selected_project() {
            Some(p) => p,
            None => return Err(owned("No runnable Apple project was detected.")),
        };
        if self.selected_target_index >= project.targets.len() {
            return Err(owned("No shared Xcode scheme was detected."));
        }
        let device_id = match self.selected_device_index {
            Some(i) => if i < project.devices.len() {
                Some(copy_string(&project.devices[i].id))
            } else {
                None
            },
            None => None,
        };
        Ok(ExecutionRequest {
            project_id: copy_string(&project.id),
            target_id: copy_string(&project.targets[self.selected_target_index].id),
            device_id,
            action: self.selected_action,
        })
    }
}

} // verus!
