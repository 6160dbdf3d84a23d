use vstd::prelude::*;
use vstd::string::StringExecFns;
use crate::task::TaskModel;
use crate::repo::{TaskRepo, has_id, id_index};
use crate::json::{dec_int, json_task, json_tasks, json_task_str, json_tasks_str, fmt_u64};

verus! {

/// What a handler hands back to the HTTP layer: a status code and a body.
/// The layer around the library turns this into the wire response.
pub struct HttpReply {
    pub status: u16,
    pub body: String,
}

/// The fixed body of every 404 response.
pub open spec fn not_found_body() -> Seq<char> {
    "Task not found"@
}

/// The fixed body of a successful delete response.
pub open spec fn deleted_body() -> Seq<char> {
    "Task deleted"@
}

/// The greeting body, carrying one signed integer in decimal.
pub open spec fn greeting(n: int) -> Seq<char> {
    "I'm up and running! My favorite number is "@ + dec_int(n)
}

/// Relies on rand::random: draws one value of the asked-for type from the
/// thread-local generator. Nothing is promised of which value comes back.
pub assume_specification<T>[ rand::random::<T> ]() -> (r: T)
    where
        rand::distributions::Standard: rand::distributions::Distribution<T>,
;

/// `GET /tasks`: always responds 200 with the JSON array of the current
/// tasks, in insertion order. Performs exactly one repository operation.
pub fn get_tasks(repo: &TaskRepo) -> (r: HttpReply)
    ensures
        r.status == 200,
        r.body@ == json_tasks(repo@.tasks),
{
    let v = repo.list();
    let body = json_tasks_str(&v);
    proof {
        assert(v@.map_values(|t: crate::task::Task| t@) =~= repo@.tasks);
    }
    HttpReply { status: 200, body }
}

/// `POST /tasks`: creates a task with the given title and always responds
/// 200 with the JSON object of the new task. Performs exactly one repository
/// operation.
pub fn create_task(repo: &mut TaskRepo, title: String) -> (r: HttpReply)
    requires
        old(repo).wf(),
        old(repo)@.next_id < usize::MAX,
    ensures
        final(repo).wf(),
        final(repo)@.tasks == old(repo)@.tasks.push(
            (TaskModel { id: old(repo)@.next_issued_id(), title: title@ }),
        ),
        final(repo)@.next_id == old(repo)@.next_id + 1,
        r.status == 200,
        r.body@ == json_task((TaskModel { id: old(repo)@.next_issued_id(), title: title@ })),
{
    let t = repo.create(title);
    let body = json_task_str(&t);
    HttpReply { status: 200, body }
}

/// `PUT /tasks/{id}`: replaces the title of the task carrying `id` in place
/// and responds 200 with the JSON object of the updated task; responds 404
/// with `Task not found`, leaving the repository untouched, exactly when no
/// task carries `id`. Performs exactly one repository operation.
pub fn update_task(repo: &mut TaskRepo, id: usize, title: String) -> (r: HttpReply)
    requires
        old(repo).wf(),
    ensures
        final(repo).wf(),
        final(repo)@.next_id == old(repo)@.next_id,
        has_id(old(repo)@.tasks, id as nat) ==> {
            &&& r.status == 200
            &&& r.body@ == json_task((TaskModel { id: id as nat, title: title@ }))
            &&& final(repo)@.tasks == old(repo)@.tasks.update(
                id_index(old(repo)@.tasks, id as nat),
                (TaskModel { id: id as nat, title: title@ }),
            )
        },
        !has_id(old(repo)@.tasks, id as nat) ==> {
            &&& r.status == 404
            &&& r.body@ == not_found_body()
            &&& final(repo)@.tasks == old(repo)@.tasks
        },
{
    match repo.update(id, title) {
        Ok(t) => {
            let body = json_task_str(&t);
            HttpReply { status: 200, body }
        },
        Err(_) => HttpReply { status: 404, body: String::from_str("Task not found") },
    }
}

/// `DELETE /tasks/{id}`: removes the task carrying `id` and responds 200
/// with `Task deleted`; responds 404 with `Task not found`, leaving the
/// repository untouched, exactly when no task carries `id`. Performs exactly
/// one repository operation.
pub fn delete_task(repo: &mut TaskRepo, id: usize) -> (r: HttpReply)
    requires
        old(repo).wf(),
    ensures
        final(repo).wf(),
        final(repo)@.next_id == old(repo)@.next_id,
        has_id(old(repo)@.tasks, id as nat) ==> {
            &&& r.status == 200
            &&& r.body@ == deleted_body()
            &&& final(repo)@.tasks == old(repo)@.tasks.remove(
                id_index(old(repo)@.tasks, id as nat),
            )
        },
        !has_id(old(repo)@.tasks, id as nat) ==> {
            &&& r.status == 404
            &&& r.body@ == not_found_body()
            &&& final(repo)@.tasks == old(repo)@.tasks
        },
{
    match repo.delete(id) {
        Ok(_) => HttpReply { status: 200, body: String::from_str("Task deleted") },
        Err(_) => HttpReply { status: 404, body: String::from_str("Task not found") },
    }
}

/// The greeting reply for a given number: always 200, with the number in
/// decimal at the end of the fixed text.
pub fn welcome_with(n: i32) -> (r: HttpReply)
    ensures
        r.status == 200,
        r.body@ == greeting(n as int),
{
    let mut body = String::from_str("I'm up and running! My favorite number is ");
    if n >= 0 {
        let d = fmt_u64(n as u64);
        body.append(d.as_str());
    } else {
        body.append("-");
        let m: i64 = n as i64;
        let neg: u64 = (-m) as u64;
        let d = fmt_u64(neg);
        body.append(d.as_str());
        proof {
            reveal_strlit("-");
            assert(neg as nat == (-(n as int)) as nat);
        }
    }
    proof {
        assert(body@ =~= greeting(n as int));
    }
    HttpReply { status: 200, body }
}

/// `GET /`: always responds 200 with the greeting, carrying one random
/// signed integer drawn for this request. No repository dependency, no state.
pub fn welcome() -> (r: HttpReply)
    ensures
        r.status == 200,
        exists|n: int| r.body@ == #[trigger] greeting(n),
{
    let n: i32 = rand::random();
    let r = welcome_with(n);
    proof {
        assert(r.body@ == greeting(n as int));
    }
    r
}

} // verus!
