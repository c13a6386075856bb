# teardown

Tears an operator down from a Kubernetes cluster: deletes what a plan names, waits for
it to go, strips finalizers where that was approved, and audits what is left.

Every decision is made in the library under `src/` and proved with
[Verus](https://github.com/verus-lang/verus). The library sends no request and writes no
file. What has to ask the cluster in between is a run with stages, such as
`executor::phases::PlanRun`, `executor::waves::WaveRun`, `executor::cleanup::CleanupRun` or
`audit::sweep::AuditRun`: the caller does what the stage asks for and hands the answer back.

| Directory | What it holds |
| --- | --- |
| `src/app.rs`, `src/harness.rs` | the screens of an interactive session and its commands |
| `src/plan.rs`, `src/planner.rs`, `src/drift.rs` | plans, and whether a saved plan still holds |
| `src/executor/` | running a plan: DELETEs, waits, further DELETEs, recovery, cleanup |
| `src/audit/` | what is left of an operator, and whether the operator itself is |
| `src/journal/` | what is written down, and when |
| `src/explain.rs`, `src/inspect.rs`, `src/finalizers.rs` | telling a user what stands where |
| `src/permit.rs` | permits to change the cluster |
| `tests/` | tests of the library |
| `app/` | requests, files and printing around the library |

Functions whose names begin with `law_` state what holds of several functions together,
for example that an operator counts as absent only where all of it was seen to be gone
(`audit::course::law_absent_means_all_gone`), or that a DELETE is bound to the UID that was
read (`executor::deletion::law_delete_is_bound`).
