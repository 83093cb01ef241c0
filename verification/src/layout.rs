//! The host's record of what the Layout Manager is showing.
//!
//! The Layout Manager itself is an external collaborator; the host only
//! needs to add and remove activities, hand the layout its configuration
//! sub-tree, and re-apply the general style values to every activity on
//! reload. This module keeps the host's own authoritative record of those
//! decisions.

use vstd::prelude::*;

use crate::bus::ActivityIdentifier;
use crate::config::GeneralConfig;

verus! {

/// One activity surface the layout is showing: who contributed it, the
/// widget handle the surrounding process resolves, and the general style
/// values last applied to it.
pub struct ActivityEntry {
    pub id: ActivityIdentifier,
    pub widget: u64,
    pub applied_style: GeneralConfig,
}

/// `s` with every entry named (`m`, `a`) taken out, order kept.
pub open spec fn without_activity(
    s: Seq<ActivityEntry>,
    m: Seq<char>,
    a: Seq<char>,
) -> Seq<ActivityEntry>
    decreases s.len(),
{
    if s.len() == 0 {
        Seq::empty()
    } else {
        let pre = without_activity(s.drop_last(), m, a);
        if s.last().id.module@ == m && s.last().id.activity@ == a {
            pre
        } else {
            pre.push(s.last())
        }
    }
}

/// The active layout: its name, the configuration sub-tree it last accepted,
/// and the activities it is showing.
pub struct LayoutState {
    pub name: String,
    pub active_config: Option<String>,
    pub activities: Vec<ActivityEntry>,
}

impl LayoutState {
    pub fn new(name: String) -> (l: LayoutState)
        ensures
            l.name == name,
            l.active_config is None,
            l.activities@.len() == 0,
    {
        LayoutState { name, active_config: None, activities: Vec::new() }
    }

    /// Forget every activity under this identifier.
    pub fn remove_activity(&mut self, id: &ActivityIdentifier)
        ensures
            final(self).activities@ == without_activity(
                old(self).activities@,
                id.module@,
                id.activity@,
            ),
            final(self).name == old(self).name,
            final(self).active_config == old(self).active_config,
    {
        let n = self.activities.len();
        let mut out: Vec<ActivityEntry> = Vec::new();
        let mut i: usize = 0;
        while i < n
            invariant
                *self == *old(self),
                n == self.activities@.len(),
                i <= n,
                out@ == without_activity(
                    self.activities@.take(i as int),
                    id.module@,
                    id.activity@,
                ),
            decreases n - i,
        {
            let ghost prev = self.activities@.take(i as int);
            let ghost cur = self.activities@.take(i + 1);
            assert(cur.drop_last() =~= prev);
            assert(cur.last() == self.activities@[i as int]);
            let e = &self.activities[i];
            if !(e.id.module == id.module && e.id.activity == id.activity) {
                out.push(
                    ActivityEntry {
                        id: ActivityIdentifier {
                            module: e.id.module.clone(),
                            activity: e.id.activity.clone(),
                        },
                        widget: e.widget,
                        applied_style: e.applied_style,
                    },
                );
                assert(out@.last() == cur.last());
            }
            i += 1;
        }
        assert(self.activities@.take(n as int) =~= self.activities@);
        self.activities = out;
    }

    /// Show an activity: any previous entry under the same identifier is
    /// replaced, and the given style values are recorded as applied to it.
    pub fn add_activity(&mut self, id: ActivityIdentifier, widget: u64, style: GeneralConfig)
        ensures
            final(self).activities@ == without_activity(
                old(self).activities@,
                id.module@,
                id.activity@,
            ).push(ActivityEntry { id, widget, applied_style: style }),
            final(self).name == old(self).name,
            final(self).active_config == old(self).active_config,
    {
        self.remove_activity(&id);
        self.activities.push(ActivityEntry { id, widget, applied_style: style });
    }

    /// Re-apply general style values to every activity currently shown.
    pub fn update_all_styles(&mut self, style: GeneralConfig)
        ensures
            final(self).activities@.len() == old(self).activities@.len(),
            forall|i: int| #![trigger final(self).activities@[i]]
                0 <= i < final(self).activities@.len() ==> {
                    let pre = old(self).activities@[i];
                    let post = final(self).activities@[i];
                    &&& post.id == pre.id
                    &&& post.widget == pre.widget
                    &&& post.applied_style == style
                },
            final(self).name == old(self).name,
            final(self).active_config == old(self).active_config,
    {
        let n = self.activities.len();
        let mut out: Vec<ActivityEntry> = Vec::new();
        let mut i: usize = 0;
        while i < n
            invariant
                *self == *old(self),
                n == self.activities@.len(),
                i <= n,
                out@.len() == i,
                forall|j: int| #![trigger out@[j]]
                    0 <= j < i ==> {
                        let pre = self.activities@[j];
                        let post = out@[j];
                        &&& post.id == pre.id
                        &&& post.widget == pre.widget
                        &&& post.applied_style == style
                    },
            decreases n - i,
        {
            let e = &self.activities[i];
            out.push(
                ActivityEntry {
                    id: ActivityIdentifier {
                        module: e.id.module.clone(),
                        activity: e.id.activity.clone(),
                    },
                    widget: e.widget,
                    applied_style: style,
                },
            );
            i += 1;
        }
        self.activities = out;
    }
}

} // verus!
