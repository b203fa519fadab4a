//! An in-memory workspace with per-turn checkpoints: edits are checked before they write,
//! a turn records each file's state before and after, and a rewind restores the earlier
//! states, reports files changed since, and drops the checkpoint only once all are restored.
use crate::text::{same_text, starts_with};
use crate::textmap::TextMap;
use vstd::prelude::*;
use vstd::string::*;

verus! {

#[derive(Clone, Debug, PartialEq, Eq)]
pub struct FileChange {
    pub before: Option<String>,
    pub after: Option<String>,
}

pub open spec fn text_opt(o: Option<String>) -> Option<Seq<char>> {
    match o {
        Some(s) => Some(s@),
        None => None,
    }
}

/// A file's state before and after a turn (absent files have no text).
pub struct ChangeModel {
    pub before: Option<Seq<char>>,
    pub after: Option<Seq<char>>,
}

pub open spec fn change_model(c: FileChange) -> ChangeModel {
    ChangeModel { before: text_opt(c.before), after: text_opt(c.after) }
}

pub open spec fn changes(m: Map<Seq<char>, FileChange>) -> Map<Seq<char>, ChangeModel> {
    m.map_values(|c: FileChange| change_model(c))
}

pub open spec fn contents(m: Map<Seq<char>, String>) -> Map<Seq<char>, Seq<char>> {
    m.map_values(|s: String| s@)
}

fn copy_text(o: &Option<String>) -> (r: Option<String>)
    ensures
        text_opt(r) == text_opt(*o),
{
    match o {
        Some(s) => Some(s.clone()),
        None => None,
    }
}

pub struct MemoryWorkspace {
    pub files: TextMap<String, String>,
    pub current_turn: TextMap<String, FileChange>,
    pub checkpoints: Vec<TextMap<String, FileChange>>,
    pub fail_writes: TextMap<String, ()>,
}

/// What a file holds, if it exists.
pub open spec fn lookup(files: Map<Seq<char>, Seq<char>>, path: Seq<char>) -> Option<Seq<char>> {
    if files.contains_key(path) {
        Some(files[path])
    } else {
        None
    }
}

/// Writing a snapshot: a text is written, an absent snapshot deletes the file.
pub open spec fn written(files: Map<Seq<char>, Seq<char>>, path: Seq<char>, snapshot: Option<Seq<char>>) -> Map<
    Seq<char>,
    Seq<char>,
> {
    match snapshot {
        Some(t) => files.insert(path, t),
        None => files.remove(path),
    }
}

/// Restoring a checkpoint's entries in key order: the files after each restore, the paths
/// that changed since the checkpoint, and the path whose write failed, if one did.
pub open spec fn restore(
    files: Map<Seq<char>, Seq<char>>,
    fail_writes: Set<Seq<char>>,
    entries: Seq<(String, FileChange)>,
) -> (Map<Seq<char>, Seq<char>>, Seq<Seq<char>>, Option<Seq<char>>)
    decreases entries.len(),
{
    if entries.len() == 0 {
        (files, Seq::empty(), None)
    } else {
        let (f, conflicts, failed) = restore(files, fail_writes, entries.drop_last());
        if failed is Some {
            (f, conflicts, failed)
        } else {
            let path = entries.last().0@;
            let change = change_model(entries.last().1);
            let conflicts2 = if lookup(f, path) != change.after {
                conflicts.push(path)
            } else {
                conflicts
            };
            if fail_writes.contains(path) {
                (f, conflicts2, Some(path))
            } else {
                (written(f, path, change.before), conflicts2, None)
            }
        }
    }
}

impl MemoryWorkspace {
    pub open spec fn wf(&self) -> bool {
        &&& self.files.wf()
        &&& self.current_turn.wf()
        &&& self.fail_writes.wf()
        &&& forall|i: int| 0 <= i < self.checkpoints@.len() ==> (#[trigger] self.checkpoints@[i]).wf()
    }

    pub fn new() -> (w: Self)
        ensures
            w.wf(),
            contents(w.files@) == Map::<Seq<char>, Seq<char>>::empty(),
            w.current_turn@ == Map::<Seq<char>, FileChange>::empty(),
            w.checkpoints@.len() == 0,
            w.fail_writes@.dom() == Set::<Seq<char>>::empty(),
    {
        let w = MemoryWorkspace {
            files: TextMap::new(),
            current_turn: TextMap::new(),
            checkpoints: Vec::new(),
            fail_writes: TextMap::new(),
        };
        assert(contents(w.files@) =~= Map::<Seq<char>, Seq<char>>::empty());
        w
    }

    /// Edits a file under `/workspace/`; the turn remembers the file's state before its
    /// first edit.
    pub fn edit(&mut self, path: &str, new_contents: &str) -> (r: Result<(), String>)
        requires
            old(self).wf(),
        ensures
            final(self).wf(),
            final(self).checkpoints == old(self).checkpoints,
            final(self).fail_writes == old(self).fail_writes,
            match r {
                Ok(()) => {
                    &&& "/workspace/"@.is_prefix_of(path@)
                    &&& contents(final(self).files@) == contents(old(self).files@).insert(
                        path@,
                        new_contents@,
                    )
                    &&& changes(final(self).current_turn@) == if old(self).current_turn@.contains_key(
                        path@,
                    ) {
                        changes(old(self).current_turn@)
                    } else {
                        changes(old(self).current_turn@).insert(
                            path@,
                            ChangeModel {
                                before: lookup(contents(old(self).files@), path@),
                                after: None,
                            },
                        )
                    }
                },
                Err(e) => {
                    &&& !"/workspace/"@.is_prefix_of(path@)
                    &&& e@ == "permission denied: "@ + path@
                    &&& final(self).files == old(self).files
                    &&& final(self).current_turn == old(self).current_turn
                },
            },
    {
        if !starts_with(path, "/workspace/") {
            return Err(String::from_str("permission denied: ").concat(path));
        }
        let before = match self.files.get(path) {
            Some(s) => Some(s.clone()),
            None => None,
        };
        proof {
            assert(text_opt(before) == lookup(contents(self.files@), path@));
        }
        if !self.current_turn.contains_key(path) {
            let ghost t0 = self.current_turn@;
            self.current_turn.insert(path.to_owned(), FileChange { before, after: None });
            assert(changes(self.current_turn@) =~= changes(t0).insert(
                path@,
                ChangeModel { before: text_opt(before), after: None },
            ));
        }
        let ghost f0 = self.files@;
        self.files.insert(path.to_owned(), new_contents.to_owned());
        assert(contents(self.files@) =~= contents(f0).insert(path@, new_contents@));
        Ok(())
    }

    /// Closes the turn: each changed file records its state now, and the turn's changes
    /// become the newest checkpoint.
    pub fn finish_turn(&mut self)
        requires
            old(self).wf(),
        ensures
            final(self).wf(),
            final(self).files == old(self).files,
            final(self).fail_writes == old(self).fail_writes,
            final(self).current_turn@ == Map::<Seq<char>, FileChange>::empty(),
            final(self).checkpoints@.len() == old(self).checkpoints@.len() + 1,
            forall|i: int|
                0 <= i < old(self).checkpoints@.len() ==> #[trigger] final(self).checkpoints@[i]
                    == old(self).checkpoints@[i],
            changes(final(self).checkpoints@.last()@) == Map::new(
                |p: Seq<char>| old(self).current_turn@.contains_key(p),
                |p: Seq<char>|
                    ChangeModel {
                        before: change_model(old(self).current_turn@[p]).before,
                        after: lookup(contents(old(self).files@), p),
                    },
            ),
    {
        let ghost turn = self.current_turn;
        let entries = self.current_turn.take_all();
        let mut checkpoint: TextMap<String, FileChange> = TextMap::new();
        let mut i: usize = 0;
        while i < entries.len()
            invariant
                i <= entries@.len(),
                entries@ == turn.pairs(),
                turn.wf(),
                self.files.wf(),
                self.files == old(self).files,
                checkpoint.wf(),
                changes(checkpoint@) == Map::new(
                    |p: Seq<char>| exists|j: int| 0 <= j < i && #[trigger] turn.key_at(j) == p,
                    |p: Seq<char>|
                        ChangeModel {
                            before: change_model(turn@[p]).before,
                            after: lookup(contents(self.files@), p),
                        },
                ),
            decreases entries@.len() - i,
        {
            let path = &entries[i].0;
            let after = match self.files.get(path.as_str()) {
                Some(s) => Some(s.clone()),
                None => None,
            };
            let before = copy_text(&entries[i].1.before);
            let ghost c0 = checkpoint@;
            checkpoint.insert(path.clone(), FileChange { before, after });
            proof {
                turn.lemma_index_of_key(i as int);
                assert(entries@[i as int] == turn.pairs()[i as int]);
                assert(change_model(turn@[path@]).before == text_opt(before));
                assert(lookup(contents(self.files@), path@) == text_opt(after));
                assert forall|p: Seq<char>| #[trigger]
                    changes(checkpoint@).contains_key(p) == (exists|j: int|
                        0 <= j < i + 1 && #[trigger] turn.key_at(j) == p) by {
                    if exists|j: int| 0 <= j < i + 1 && #[trigger] turn.key_at(j) == p {
                        let j = choose|j: int| 0 <= j < i + 1 && #[trigger] turn.key_at(j) == p;
                        if j < i {
                            assert(changes(c0).contains_key(p));
                        }
                    }
                    if changes(checkpoint@).contains_key(p) && p != path@ {
                        assert(changes(c0).contains_key(p));
                    }
                }
                assert forall|p: Seq<char>| #[trigger] changes(checkpoint@).contains_key(p) implies changes(checkpoint@)[p] == (ChangeModel {
                    before: change_model(turn@[p]).before,
                    after: lookup(contents(self.files@), p),
                }) by {
                    if p != path@ {
                        assert(changes(c0).contains_key(p));
                        assert(changes(checkpoint@)[p] == changes(c0)[p]);
                    } else {
                        assert(checkpoint@[p] == (FileChange { before, after }));
                    }
                }
                assert(changes(checkpoint@) =~= Map::new(
                    |p: Seq<char>| exists|j: int| 0 <= j < i + 1 && #[trigger] turn.key_at(j) == p,
                    |p: Seq<char>|
                        ChangeModel {
                            before: change_model(turn@[p]).before,
                            after: lookup(contents(self.files@), p),
                        },
                ));
            }
            i = i + 1;
        }
        proof {
            assert forall|p: Seq<char>| #[trigger] turn@.contains_key(p) == (exists|j: int|
                0 <= j < entries@.len() && #[trigger] turn.key_at(j) == p) by {
                if turn@.contains_key(p) {
                    let j = turn.index_of_key(p);
                    assert(turn.key_at(j) == p);
                }
            }
        }
        self.checkpoints.push(checkpoint);
        proof {
            assert forall|k: int| 0 <= k < self.checkpoints@.len() implies (#[trigger] self.checkpoints@[k]).wf() by {
                if k < old(self).checkpoints@.len() {
                    assert(self.checkpoints@[k] == old(self).checkpoints@[k]);
                }
            }
            assert(changes(self.checkpoints@.last()@) =~= Map::new(
                |p: Seq<char>| old(self).current_turn@.contains_key(p),
                |p: Seq<char>|
                    ChangeModel {
                        before: change_model(old(self).current_turn@[p]).before,
                        after: lookup(contents(old(self).files@), p),
                    },
            ));
        }
    }

    /// Writes a snapshot of a file; a configured failure refuses the write.
    pub fn write_snapshot(&mut self, path: &str, snapshot: &Option<String>) -> (r: Result<(), String>)
        requires
            old(self).wf(),
        ensures
            final(self).wf(),
            final(self).current_turn == old(self).current_turn,
            final(self).checkpoints == old(self).checkpoints,
            final(self).fail_writes == old(self).fail_writes,
            match r {
                Ok(()) => !old(self).fail_writes@.contains_key(path@) && contents(final(self).files@)
                    == written(contents(old(self).files@), path@, text_opt(*snapshot)),
                Err(e) => old(self).fail_writes@.contains_key(path@) && e@
                    == "simulated write failure: "@ + path@ && final(self).files == old(self).files,
            },
    {
        if self.fail_writes.contains_key(path) {
            return Err(String::from_str("simulated write failure: ").concat(path));
        }
        let ghost f0 = self.files@;
        match snapshot {
            Some(text) => {
                self.files.insert(path.to_owned(), text.clone());
                assert(contents(self.files@) =~= contents(f0).insert(path@, text@));
            },
            None => {
                self.files.remove(path);
                assert(contents(self.files@) =~= contents(f0).remove(path@));
            },
        }
        Ok(())
    }

    /// Rewinds the newest checkpoint: every file it recorded gets back its state before the
    /// turn, in path order; files changed since are reported. A failed write stops the
    /// rewind and keeps the checkpoint.
    pub fn rewind_last(&mut self) -> (r: Result<Vec<String>, String>)
        requires
            old(self).wf(),
        ensures
            final(self).wf(),
            final(self).current_turn == old(self).current_turn,
            final(self).fail_writes == old(self).fail_writes,
            old(self).checkpoints@.len() == 0 ==> (r matches Err(e) && e@ == "no checkpoint"@
                && final(self).checkpoints@ == old(self).checkpoints@ && final(self).files
                == old(self).files),
            old(self).checkpoints@.len() > 0 ==> {
                let (files, conflicts, failed) = restore(
                    contents(old(self).files@),
                    old(self).fail_writes@.dom(),
                    old(self).checkpoints@.last().pairs(),
                );
                &&& contents(final(self).files@) == files
                &&& match r {
                    Ok(v) => failed is None && v@.map_values(|s: String| s@) == conflicts
                        && final(self).checkpoints@ == old(self).checkpoints@.drop_last(),
                    Err(e) => failed is Some && e@ == "simulated write failure: "@ + failed->0
                        && final(self).checkpoints@ == old(self).checkpoints@,
                }
            },
    {
        let checkpoint = match self.checkpoints.pop() {
            Some(c) => c,
            None => {
                return Err(String::from_str("no checkpoint"));
            },
        };
        let ghost fail = self.fail_writes@.dom();
        let ghost f0 = contents(self.files@);
        proof {
            assert(old(self).checkpoints@[old(self).checkpoints@.len() - 1].wf());
            assert forall|k: int| 0 <= k < self.checkpoints@.len() implies (#[trigger] self.checkpoints@[k]).wf() by {
                assert(self.checkpoints@[k] == old(self).checkpoints@[k]);
            }
        }
        let ghost pairs = checkpoint.pairs();
        let entries = checkpoint.entries();
        let mut conflicts: Vec<String> = Vec::new();
        let mut i: usize = 0;
        while i < entries.len()
            invariant
                entries@ == pairs,
                self.wf(),
                i <= pairs.len(),
                self.current_turn == old(self).current_turn,
                self.fail_writes == old(self).fail_writes,
                old(self).checkpoints@.len() > 0,
                self.checkpoints@ == old(self).checkpoints@.drop_last(),
                checkpoint == old(self).checkpoints@.last(),
                checkpoint.wf(),
                pairs == checkpoint.pairs(),
                f0 == contents(old(self).files@),
                fail == self.fail_writes@.dom(),
                ({
                    let (files, found, failed) = restore(f0, fail, pairs.take(i as int));
                    &&& failed is None
                    &&& contents(self.files@) == files
                    &&& conflicts@.map_values(|s: String| s@) == found
                }),
            decreases pairs.len() - i,
        {
            let path = &entries[i].0;
            let change = &entries[i].1;
            proof {
                assert(pairs.take(i + 1).drop_last() =~= pairs.take(i as int));
            }
            let changed = match (self.files.get(path.as_str()), &change.after) {
                (Some(now), Some(then)) => !same_text(now.as_str(), then.as_str()),
                (None, None) => false,
                _ => true,
            };
            let ghost c0 = conflicts@;
            if changed {
                conflicts.push(path.clone());
            }
            proof {
                assert(conflicts@.map_values(|s: String| s@) =~= (if changed {
                    c0.map_values(|s: String| s@).push(path@)
                } else {
                    c0.map_values(|s: String| s@)
                }));
            }
            match self.write_snapshot(path.as_str(), &change.before) {
                Ok(()) => {},
                Err(e) => {
                    proof {
                        assert(pairs.take(i + 1).drop_last() =~= pairs.take(i as int));
                        assert(restore(f0, fail, pairs.take(i + 1)).2 == Some(path@));
                        assert(restore(f0, fail, pairs.take(i + 1)).0 == contents(self.files@));
                        lemma_restore_failure_stays(f0, fail, pairs, i + 1, pairs.len() as int);
                        assert(pairs.take(pairs.len() as int) =~= pairs);
                        assert(pairs == old(self).checkpoints@.last().pairs());
                        assert(f0 == contents(old(self).files@));
                        assert(fail == old(self).fail_writes@.dom());
                        assert(e@ == "simulated write failure: "@ + path@);
                    }
                    self.checkpoints.push(checkpoint);
                    proof {
                        assert(self.checkpoints@ =~= old(self).checkpoints@);
                        assert forall|k: int| 0 <= k < self.checkpoints@.len() implies (#[trigger] self.checkpoints@[k]).wf() by {
                            assert(self.checkpoints@[k] == old(self).checkpoints@[k]);
                            assert(old(self).checkpoints@[k].wf());
                        }
                    }
                    return Err(e);
                },
            }
            i = i + 1;
        }
        proof {
            assert(pairs.take(pairs.len() as int) =~= pairs);
        }
        Ok(conflicts)
    }
}

/// Once a write fails, the rest of the checkpoint is not touched.
proof fn lemma_restore_failure_stays(
    files: Map<Seq<char>, Seq<char>>,
    fail_writes: Set<Seq<char>>,
    entries: Seq<(String, FileChange)>,
    n: int,
    m: int,
)
    requires
        0 <= n <= m <= entries.len(),
        restore(files, fail_writes, entries.take(n)).2 is Some,
    ensures
        restore(files, fail_writes, entries.take(m)).0 == restore(files, fail_writes, entries.take(n)).0,
        restore(files, fail_writes, entries.take(m)).2 == restore(files, fail_writes, entries.take(n)).2,
    decreases m - n,
{
    if m > n {
        lemma_restore_failure_stays(files, fail_writes, entries, n, m - 1);
        assert(entries.take(m).drop_last() =~= entries.take(m - 1));
    }
}

/// A rewind that completes gives every path of the checkpoint its state from before the turn.
pub proof fn law_rewind_restores_before_states(
    files: Map<Seq<char>, Seq<char>>,
    fail_writes: Set<Seq<char>>,
    checkpoint: TextMap<String, FileChange>,
    k: int,
)
    requires
        checkpoint.wf(),
        0 <= k < checkpoint.pairs().len(),
        restore(files, fail_writes, checkpoint.pairs()).2 is None,
    ensures
        lookup(restore(files, fail_writes, checkpoint.pairs()).0, checkpoint.key_at(k)) == change_model(
            checkpoint.pairs()[k].1,
        ).before,
{
    assert(checkpoint.pairs().take(checkpoint.pairs().len() as int) =~= checkpoint.pairs());
    lemma_restore_keeps(files, fail_writes, checkpoint, checkpoint.pairs().len() as int, k);
}

proof fn lemma_restore_keeps(
    files: Map<Seq<char>, Seq<char>>,
    fail_writes: Set<Seq<char>>,
    checkpoint: TextMap<String, FileChange>,
    n: int,
    k: int,
)
    requires
        checkpoint.wf(),
        0 <= k < n <= checkpoint.pairs().len(),
        restore(files, fail_writes, checkpoint.pairs().take(n)).2 is None,
    ensures
        lookup(restore(files, fail_writes, checkpoint.pairs().take(n)).0, checkpoint.key_at(k))
            == change_model(checkpoint.pairs()[k].1).before,
    decreases n,
{
    let pairs = checkpoint.pairs();
    assert(pairs.take(n).drop_last() =~= pairs.take(n - 1));
    if k < n - 1 {
        lemma_restore_keeps(files, fail_writes, checkpoint, n - 1, k);
        assert(crate::text::text_lt(checkpoint.key_at(k), checkpoint.key_at(n - 1)));
        crate::text::lemma_text_lt_trichotomy(checkpoint.key_at(k), checkpoint.key_at(k));
    }
}

} // verus!
