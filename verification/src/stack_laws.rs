//! What saving, loading and deleting a stack do to its directory, taken
//! together.

use crate::stack::{compose_file_names, Disk, env_file_name, override_file_names, StackView};
use vstd::prelude::*;

verus! {

/// The directory that a save starts from: a new one for a new stack.
pub open spec fn start_of(is_add: bool, d: Disk) -> Disk {
    if is_add {
        Disk::fresh()
    } else {
        d
    }
}

proof fn lemma_file_names()
    ensures
        compose_file_names().len() == 4,
        override_file_names().len() == 4,
        forall|i: int| 0 <= i < 4 ==> override_file_names()[i] != compose_file_names()[0],
        forall|i: int| 0 <= i < 4 ==> override_file_names()[i] != env_file_name(),
        compose_file_names()[0] != env_file_name(),
{
    reveal_strlit("compose.yaml");
    reveal_strlit(".env");
    reveal_strlit("compose.override.yaml");
    reveal_strlit("compose.override.yml");
    reveal_strlit("docker-compose.override.yaml");
    reveal_strlit("docker-compose.override.yml");
    let c = compose_file_names()[0];
    let e = env_file_name();
    assert(c.len() == 12 && e.len() == 4);
    assert(override_file_names()[0].len() == 21);
    assert(override_file_names()[1].len() == 20);
    assert(override_file_names()[2].len() == 28);
    assert(override_file_names()[3].len() == 27);
}

proof fn lemma_first_present_agrees(a: Disk, b: Disk, names: Seq<Seq<char>>, from: int)
    requires
        0 <= from,
        forall|i: int|
            0 <= i < names.len() ==> a.files.dom().contains(names[i]) == b.files.dom().contains(
                names[i],
            ),
    ensures
        a.first_present_from(names, from) == b.first_present_from(names, from),
    decreases names.len() - from,
{
    if from < names.len() {
        if !a.files.dom().contains(names[from]) {
            lemma_first_present_agrees(a, b, names, from + 1);
        }
    }
}

proof fn lemma_first_present_range(d: Disk, names: Seq<Seq<char>>, from: int)
    requires
        0 <= from,
    ensures
        match d.first_present_from(names, from) {
            Some(i) => from <= i < names.len() && d.files.dom().contains(names[i]),
            None => true,
        },
    decreases names.len() - from,
{
    if from < names.len() {
        if !d.files.dom().contains(names[from]) {
            lemma_first_present_range(d, names, from + 1);
        }
    }
}

/// What reading a stack returns after a successful save of a submitted
/// stack.
///
/// The compose document and the environment are always the ones that were
/// saved. The override document is the saved one if its file was written,
/// which is the case when it was there or the document is not empty; else
/// it is whatever override document the directory held before. The status
/// is the one that the stack is read with.
pub proof fn lemma_load_after_save(
    name: Seq<char>,
    stacks_dir: Seq<char>,
    compose: Seq<char>,
    env: Seq<char>,
    over: Seq<char>,
    is_add: bool,
    d: Disk,
    status: int,
)
    requires
        StackView::submitted(name, stacks_dir, compose, env, over).saved(is_add, d) is Some,
    ensures
        ({
            let v = StackView::submitted(name, stacks_dir, compose, env, over);
            let start = start_of(is_add, d);
            let after = v.saved(is_add, d)->0;
            let seen = StackView::read(name, stacks_dir, after, status);
            let before = StackView::read(name, stacks_dir, start, status);
            &&& after.exists
            &&& seen.compose_file_name == compose_file_names()[0]
            &&& seen.compose_yaml == compose
            &&& seen.status == status
            &&& seen.compose_env == env
            &&& seen.compose_override_yaml == if start.files.dom().contains(
                override_file_names()[0],
            ) || over.len() > 0 {
                over
            } else {
                before.compose_override_yaml
            }
        }),
{
    lemma_file_names();
    let v = StackView::submitted(name, stacks_dir, compose, env, over);
    let start = start_of(is_add, d);
    let after = v.saved(is_add, d)->0;
    assert(after == v.written(start));
    let d1 = start.write(v.compose_file_name, compose);
    let d2 = if v.writes_env(d1) {
        d1.write(env_file_name(), env)
    } else {
        d1
    };
    assert(d1.files.dom().contains(env_file_name()) == start.files.dom().contains(
        env_file_name(),
    ));
    assert(d2.files.dom().contains(override_file_names()[0]) == start.files.dom().contains(
        override_file_names()[0],
    ));
    assert(after.files.dom().contains(compose_file_names()[0]));
    assert(after.files[compose_file_names()[0]] == compose);
    if !v.writes_override(d2) {
        assert(after == d2);
        assert forall|i: int| 0 <= i < 4 implies after.files.dom().contains(
            override_file_names()[i],
        ) == start.files.dom().contains(override_file_names()[i]) by {}
        lemma_first_present_agrees(after, start, override_file_names(), 0);
        lemma_first_present_range(start, override_file_names(), 0);
        match start.first_present(override_file_names()) {
            Some(i) => {
                let name = override_file_names()[i];
                assert(after.files[name] == start.files[name]);
            },
            None => {},
        }
    }
}

/// Saving a submitted stack and reading it again returns the three texts
/// as they were saved, unless the override document is empty and the
/// directory held an override file of another accepted name (which is
/// then read).
pub proof fn lemma_save_load_identity(
    name: Seq<char>,
    stacks_dir: Seq<char>,
    compose: Seq<char>,
    env: Seq<char>,
    over: Seq<char>,
    is_add: bool,
    d: Disk,
    status: int,
)
    requires
        StackView::submitted(name, stacks_dir, compose, env, over).saved(is_add, d) is Some,
        over.len() == 0 && !start_of(is_add, d).files.dom().contains(override_file_names()[0])
            ==> start_of(is_add, d).first_present(override_file_names()) is None,
    ensures
        ({
            let v = StackView::submitted(name, stacks_dir, compose, env, over);
            let seen = StackView::read(name, stacks_dir, v.saved(is_add, d)->0, status);
            &&& seen.compose_yaml == compose
            &&& seen.compose_env == env
            &&& seen.compose_override_yaml == over
        }),
{
    lemma_load_after_save(name, stacks_dir, compose, env, over, is_add, d, status);
    if over.len() == 0 {
        assert(over =~= Seq::empty());
    }
}

// ---------------------------------------------------------------------------
// Sequences of operations on one stack
// ---------------------------------------------------------------------------

/// What an event does to the directory of the stack it names. Deploying
/// saves and then starts the stack; on disk it is a save.
pub enum DiskOp {
    Save { compose: Seq<char>, env: Seq<char>, over: Seq<char>, is_add: bool },
    Delete { delete_files: bool },
}

/// Whether the operation changes the directory: a save that succeeds, a
/// delete that takes the files along.
pub open spec fn takes_effect(name: Seq<char>, stacks_dir: Seq<char>, d: Disk, op: DiskOp) -> bool {
    match op {
        DiskOp::Save { compose, env, over, is_add } => StackView::submitted(
            name,
            stacks_dir,
            compose,
            env,
            over,
        ).saved(is_add, d) is Some,
        DiskOp::Delete { delete_files } => delete_files,
    }
}

/// The directory after one operation.
pub open spec fn step(name: Seq<char>, stacks_dir: Seq<char>, d: Disk, op: DiskOp) -> Disk {
    match op {
        DiskOp::Save { compose, env, over, is_add } => match StackView::submitted(
            name,
            stacks_dir,
            compose,
            env,
            over,
        ).saved(is_add, d) {
            Some(after) => after,
            None => d,
        },
        DiskOp::Delete { delete_files } => if delete_files {
            Disk::absent()
        } else {
            d
        },
    }
}

/// The directory after a sequence of operations.
pub open spec fn run(name: Seq<char>, stacks_dir: Seq<char>, d: Disk, ops: Seq<DiskOp>) -> Disk
    decreases ops.len(),
{
    if ops.len() == 0 {
        d
    } else {
        step(name, stacks_dir, run(name, stacks_dir, d, ops.drop_last()), ops.last())
    }
}

/// The most recent operation of the sequence that took effect.
pub open spec fn last_effective(
    name: Seq<char>,
    stacks_dir: Seq<char>,
    d: Disk,
    ops: Seq<DiskOp>,
) -> Option<DiskOp>
    decreases ops.len(),
{
    if ops.len() == 0 {
        None
    } else if takes_effect(
        name,
        stacks_dir,
        run(name, stacks_dir, d, ops.drop_last()),
        ops.last(),
    ) {
        Some(ops.last())
    } else {
        last_effective(name, stacks_dir, d, ops.drop_last())
    }
}

/// After every sequence of saves, deploys and deletes of one stack, the
/// directory goes by the most recent operation that took effect: after a
/// save it is there and loads as the saved compose document and
/// environment, with the saved override document where that is not empty;
/// after a delete it is absent; and with no such operation it is as it was.
pub proof fn lemma_disk_follows_last_effect(
    name: Seq<char>,
    stacks_dir: Seq<char>,
    d: Disk,
    ops: Seq<DiskOp>,
    status: int,
)
    ensures
        ({
            let now = run(name, stacks_dir, d, ops);
            let seen = StackView::read(name, stacks_dir, now, status);
            match last_effective(name, stacks_dir, d, ops) {
                Some(DiskOp::Save { compose, env, over, is_add }) => {
                    &&& now.exists
                    &&& seen.compose_yaml == compose
                    &&& seen.compose_env == env
                    &&& over.len() > 0 ==> seen.compose_override_yaml == over
                },
                Some(DiskOp::Delete { delete_files }) => now == Disk::absent(),
                None => now == d,
            }
        }),
    decreases ops.len(),
{
    if ops.len() > 0 {
        let before = run(name, stacks_dir, d, ops.drop_last());
        if takes_effect(name, stacks_dir, before, ops.last()) {
            match ops.last() {
                DiskOp::Save { compose, env, over, is_add } => {
                    lemma_load_after_save(name, stacks_dir, compose, env, over, is_add, before, status);
                },
                DiskOp::Delete { delete_files } => {},
            }
        } else {
            lemma_disk_follows_last_effect(name, stacks_dir, d, ops.drop_last(), status);
        }
    }
}

} // verus!
