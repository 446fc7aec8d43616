use vstd::prelude::*;
use crate::schema::{Config, lemma_indices_in_range, lemma_pick, pick, insert_keep, update_keep};

verus! {

impl Config {
    /// The arguments of the insert statement: the row's values of the insert
    /// set, in its order.
    pub open spec fn insert_args_spec<T>(&self, row: Seq<T>) -> Seq<T> {
        self.insert_fields@.map_values(|k: usize| row[k as int])
    }

    /// The arguments of the update statement: the row's values of the update
    /// set, in its order, then the identity.
    pub open spec fn update_args_spec<T>(&self, row: Seq<T>) -> Seq<T> {
        self.update_fields@.map_values(|k: usize| row[k as int]).push(row[self.id_index as int])
    }

    /// Binds a row, given as its values in declaration order, for the insert
    /// statement.
    pub fn insert_args<T: Copy>(&self, row: &Vec<T>) -> (r: Vec<T>)
        requires
            self.wf(),
            row@.len() == self.fields@.len(),
        ensures
            r@ == self.insert_args_spec(row@),
    {
        proof {
            lemma_indices_in_range(self);
        }
        let mut args: Vec<T> = Vec::new();
        let mut i: usize = 0;
        while i < self.insert_fields.len()
            invariant
                i <= self.insert_fields@.len(),
                row@.len() == self.fields@.len(),
                forall|j: int| 0 <= j < self.insert_fields@.len() ==> (#[trigger] self.insert_fields@[j]) < self.fields@.len(),
                args@ =~= self.insert_args_spec(row@).subrange(0, i as int),
            decreases self.insert_fields@.len() - i,
        {
            args.push(row[self.insert_fields[i]]);
            i = i + 1;
        }
        args
    }

    /// Binds a row, given as its values in declaration order, for the update
    /// statement: the identity is bound last, for the `WHERE` clause.
    pub fn update_args<T: Copy>(&self, row: &Vec<T>) -> (r: Vec<T>)
        requires
            self.wf(),
            row@.len() == self.fields@.len(),
        ensures
            r@ == self.update_args_spec(row@),
    {
        proof {
            lemma_indices_in_range(self);
        }
        let mut args: Vec<T> = Vec::new();
        let mut i: usize = 0;
        while i < self.update_fields.len()
            invariant
                i <= self.update_fields@.len(),
                row@.len() == self.fields@.len(),
                forall|j: int| 0 <= j < self.update_fields@.len() ==> (#[trigger] self.update_fields@[j]) < self.fields@.len(),
                args@ =~= self.update_fields@.map_values(|k: usize| row@[k as int]).subrange(0, i as int),
            decreases self.update_fields@.len() - i,
        {
            args.push(row[self.update_fields[i]]);
            i = i + 1;
        }
        args.push(row[self.id_index]);
        proof {
            assert(args@ =~= self.update_args_spec(row@));
        }
        args
    }
}

/// The insert statement and the arguments that create binds agree: one
/// placeholder and one column for each argument, and argument `i` is the
/// value of the field that column `i` names, the fields in declaration order.
pub proof fn lemma_insert_binds_match<T>(config: &Config, row: Seq<T>)
    requires
        config.wf(),
        row.len() == config.fields@.len(),
    ensures
        config.insert_binds_spec().len() == config.insert_args_spec(row).len(),
        config.insert_columns_spec().len() == config.insert_args_spec(row).len(),
        forall|i: int| 0 <= i < config.insert_args_spec(row).len() ==> {
            let k = config.insert_fields@[i] as int;
            &&& 0 <= k < config.fields@.len()
            &&& config.insert_binds_spec()[i] == "?"@
            &&& #[trigger] config.insert_columns_spec()[i] == config.q(config.name_of(k))
            &&& config.insert_args_spec(row)[i] == row[k]
        },
        forall|i: int, j: int| 0 <= i < j < config.insert_fields@.len()
            ==> (#[trigger] config.insert_fields@[i]) < (#[trigger] config.insert_fields@[j]),
{
    lemma_indices_in_range(config);
    let fs = config.fields@;
    assert(fs.len() == config.fields.len());
    lemma_pick(fs.len(), insert_keep(fs, config.id_index as int, config.id_auto_increment));
}

/// The update statement and the arguments that update binds agree: one
/// assignment for each field of the update set, bound in that order, and
/// the last argument, for the identity predicate, is the identity's value.
pub proof fn lemma_update_binds_match<T>(config: &Config, row: Seq<T>)
    requires
        config.wf(),
        row.len() == config.fields@.len(),
    ensures
        config.update_sets_spec().len() == config.update_fields@.len(),
        config.update_args_spec(row).len() == config.update_fields@.len() + 1,
        config.update_args_spec(row).last() == row[config.id_index as int],
        forall|i: int| 0 <= i < config.update_fields@.len() ==> {
            let k = config.update_fields@[i] as int;
            &&& 0 <= k < config.fields@.len()
            &&& k != config.id_index
            &&& #[trigger] config.update_sets_spec()[i] == config.q(config.name_of(k)) + " = ?"@
            &&& config.update_args_spec(row)[i] == row[k]
        },
{
    lemma_indices_in_range(config);
    let fs = config.fields@;
    assert(fs.len() == config.fields.len());
    lemma_pick(fs.len(), update_keep(fs, config.id_index as int));
}

/// An auto-increment identity never stands in the insert set; any other
/// identity that is not ignored on insert stands there exactly once.
pub proof fn lemma_identity_in_insert(config: &Config)
    requires
        config.wf(),
    ensures
        config.id_auto_increment ==> !config.insert_fields@.contains(config.id_index),
        !config.id_auto_increment && !config.fields@[config.id_index as int].ignore_insert ==> {
            &&& config.insert_fields@.contains(config.id_index)
            &&& forall|i: int, j: int|
                0 <= i < config.insert_fields@.len() && 0 <= j < config.insert_fields@.len()
                    && config.insert_fields@[i] == config.id_index
                    && config.insert_fields@[j] == config.id_index ==> i == j
        },
{
    let fs = config.fields@;
    let id = config.id_index as int;
    let keep = insert_keep(fs, id, config.id_auto_increment);
    assert(fs.len() == config.fields.len());
    lemma_pick(fs.len(), keep);
    let p = config.insert_fields@;
    if config.id_auto_increment && p.contains(config.id_index) {
        let w = choose|w: int| 0 <= w < p.len() && p[w] == config.id_index;
        assert(keep(p[w] as int));
    }
    if !config.id_auto_increment && !fs[id].ignore_insert {
        assert(keep(id));
        assert(pick(fs.len(), keep).contains(id as usize));
        assert forall|i: int, j: int|
            0 <= i < p.len() && 0 <= j < p.len() && p[i] == config.id_index && p[j]
                == config.id_index implies i == j by {
            if i < j {
                assert(p[i] < p[j]);
            } else if j < i {
                assert(p[j] < p[i]);
            }
        }
    }
}

} // verus!
