//! A window of a running application: observed within its bounds, never written.
use vstd::prelude::*;

use crate::backend::accessibility::{mutation_capabilities, same_number, signed, DesktopWindow};
use crate::identifier::fresh_identifier;
use crate::model::{
    nodes_view, ErrorCode, Fault, Node, Observation, ObservationView, Target, TargetView,
};
use crate::number::Binary64;
use crate::text::{same, texts};

verus! {

/// What can be done with a window, given whether its picture is available.
pub fn capabilities(picture: bool) -> (r: Vec<String>)
    ensures
        texts(r@) == (if picture {
            seq!["accessibility_tree"@, "screenshot"@]
        } else {
            seq!["accessibility_tree"@]
        }),
{
    let mut v: Vec<String> = Vec::new();
    v.push("accessibility_tree".to_owned());
    if picture {
        v.push("screenshot".to_owned());
    }
    let mut more = mutation_capabilities();
    v.append(&mut more);
    assert(texts(v@) =~= (if picture {
        seq!["accessibility_tree"@, "screenshot"@]
    } else {
        seq!["accessibility_tree"@]
    }));
    v
}

/// Whether the compositor still shows a window of a process.
pub open spec fn shown(windows: Seq<DesktopWindow>, window: u64, pid: u32) -> bool {
    exists|i: int|
        0 <= i < windows.len() && (#[trigger] windows[i]).id == window && (windows[i].pid matches Some(
            p,
        ) && p == signed(pid))
}

/// Whether the compositor still shows a window of a process.
pub fn window_shown(windows: &Vec<DesktopWindow>, window: u64, pid: u32) -> (r: bool)
    ensures
        r == shown(windows@, window, pid),
{
    let mut i: usize = 0;
    while i < windows.len()
        invariant
            i <= windows@.len(),
            forall|j: int|
                0 <= j < i ==> !((#[trigger] windows@[j]).id == window && (windows@[j].pid matches Some(
                    p,
                ) && p == signed(pid))),
        decreases windows@.len() - i,
    {
        let owned = match windows[i].pid {
            Some(p) => same_number(p, pid),
            None => false,
        };
        if windows[i].id == window && owned {
            return true;
        }
        i = i + 1;
    }
    false
}

/// A bound window.
pub struct Existing {
    pub target: Target,
    pub pid: u32,
    pub window_id: u64,
}

impl Existing {
    /// Binds a window under a given reference. Its size is known once it is observed.
    pub fn bind_as(id: String, label: String, pid: u32, window_id: u64) -> (r: Self)
        ensures
            r.target.id@ == id@,
            r.target.label@ == label@,
            r.target.width == 0,
            r.target.height == 0,
            r.target.scale.value() == crate::number::unit(),
            r.pid == pid,
            r.window_id == window_id,
    {
        Existing {
            target: Target { id, label, width: 0, height: 0, scale: Binary64::from_u32(1) },
            pid,
            window_id,
        }
    }

    /// Binds a window.
    pub fn bind(label: String, pid: u32, window_id: u64) -> (r: Self)
        ensures
            crate::identifier::identifier(r.target.id@),
            r.target.label@ == label@,
            r.target.width == 0,
            r.target.height == 0,
            r.target.scale.value() == crate::number::unit(),
            r.pid == pid,
            r.window_id == window_id,
    {
        Existing::bind_as(fresh_identifier(), label, pid, window_id)
    }

    /// The targets of the window, while it is there.
    pub fn targets(&self, alive: bool) -> (r: Result<Vec<Target>, Fault>)
        ensures
            if alive {
                r matches Ok(v) && v@ == seq![self.target]
            } else {
                r matches Err(e) && e.says(ErrorCode::StaleTarget, "应用窗口已关闭"@)
            },
    {
        if !alive {
            return Err(Fault::stale("应用窗口已关闭"));
        }
        let mut v: Vec<Target> = Vec::new();
        v.push(self.target.clone());
        assert(v@ =~= seq![self.target]);
        Ok(v)
    }

    /// Whether a client names this window, or none.
    pub fn check_target(&self, target: Option<&str>) -> (r: Result<(), Fault>)
        ensures
            if target matches Some(id) && id@ != self.target.id@ {
                r matches Err(e) && e.says(ErrorCode::PermissionDenied, "目标不属于获准应用"@)
            } else {
                r is Ok
            },
    {
        match target {
            Some(id) => {
                if same(id, self.target.id.as_str()) {
                    Ok(())
                } else {
                    Err(Fault::denied("目标不属于获准应用"))
                }
            },
            None => Ok(()),
        }
    }

    /// The window with the size of its latest picture.
    pub open spec fn sized(self, picture: Option<(String, u32, u32)>) -> TargetView {
        match picture {
            Some(p) => TargetView { width: p.1, height: p.2, ..self.target@ },
            None => self.target@,
        }
    }

    /// Completes an observation, unless the window vanished or the observation was cancelled
    /// meanwhile. The size of the picture is kept in any case.
    pub fn observed(
        &mut self,
        observation_id: String,
        nodes: Vec<Node>,
        picture: Option<(String, u32, u32)>,
        alive: bool,
        verdict: Result<(), Fault>,
    ) -> (r: Result<Observation, Fault>)
        ensures
            final(self).target@ == old(self).sized(picture),
            final(self).pid == old(self).pid,
            final(self).window_id == old(self).window_id,
            if !alive {
                r matches Err(e) && e.says(ErrorCode::StaleTarget, "采集期间应用已退出"@)
            } else {
                match verdict {
                    Err(f) => r matches Err(e) && e@ == f@,
                    Ok(_) => {
                        &&& r matches Ok(o)
                        &&& o@ == (ObservationView {
                            observation_id: observation_id@,
                            target: old(self).sized(picture),
                            png_base64: match picture {
                                Some(p) => Some(p.0@),
                                None => None,
                            },
                            nodes: nodes_view(nodes@),
                            windows: Seq::empty(),
                        })
                    },
                }
            },
    {
        let png = match picture {
            Some(p) => {
                self.target.width = p.1;
                self.target.height = p.2;
                Some(p.0)
            },
            None => None,
        };
        if !alive {
            return Err(Fault::stale("采集期间应用已退出"));
        }
        match verdict {
            Err(e) => Err(e),
            Ok(()) => {
                let o = Observation {
                    observation_id,
                    target: self.target.clone(),
                    png_base64: png,
                    nodes,
                    windows: Vec::new(),
                };
                assert(o@.windows =~= Seq::empty());
                Ok(o)
            },
        }
    }

    /// Checks that an action is for this window, which is still there.
    pub fn check_action(&self, target: &str, alive: bool) -> (r: Result<(), Fault>)
        ensures
            if target@ == self.target.id@ && alive {
                r is Ok
            } else {
                r matches Err(e) && e.says(ErrorCode::StaleTarget, "应用引用失效"@)
            },
    {
        if !same(target, self.target.id.as_str()) || !alive {
            Err(Fault::stale("应用引用失效"))
        } else {
            Ok(())
        }
    }
}

} // verus!
