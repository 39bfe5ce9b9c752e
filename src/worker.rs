use vstd::prelude::*;

use crate::api::{fresh_cache, Api, COURSES_SCOPE, SIRIUS_SCOPE};
use crate::schedule::{is_due, TaskScheduler};
use crate::task::Task;

verus! {

/// The application's context: the API clients and the scheduled tasks.
pub struct Worker {
    pub api: Api,
    pub scheduler: TaskScheduler,
}

impl Worker {
    pub fn new(client_id: String, client_secret: String, tasks: Vec<Task>) -> (r: Worker)
        ensures
            r.api.sirius.auth@ == fresh_cache(client_id@, client_secret@, SIRIUS_SCOPE@),
            r.api.courses.auth@ == fresh_cache(client_id@, client_secret@, COURSES_SCOPE@),
            r.scheduler.tasks@ == tasks@,
    {
        Worker { api: Api::new(client_id, client_secret), scheduler: TaskScheduler::new(tasks) }
    }

    /// The index of the first task due at `now`, if any is.
    pub fn get(&self, now: u64) -> (r: Option<usize>)
        ensures
            match r {
                Some(i) => i < self.scheduler.tasks.len() && is_due(
                    self.scheduler.tasks[i as int]@,
                    now as int,
                ) && forall|k: int|
                    0 <= k < i ==> !is_due(#[trigger] self.scheduler.tasks[k]@, now as int),
                None => forall|k: int|
                    0 <= k < self.scheduler.tasks.len() ==> !is_due(
                        #[trigger] self.scheduler.tasks[k]@,
                        now as int,
                    ),
            },
    {
        let mut i: usize = 0;
        while i < self.scheduler.tasks.len()
            invariant
                i <= self.scheduler.tasks.len(),
                forall|k: int| 0 <= k < i ==> !is_due(#[trigger] self.scheduler.tasks[k]@, now as int),
            decreases self.scheduler.tasks.len() - i,
        {
            if self.scheduler.tasks[i].is_due(now) {
                return Some(i);
            }
            i = i + 1;
        }
        None
    }
}

} // verus!
