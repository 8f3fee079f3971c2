//! The settings table: opaque key-value pairs, upserted by key. The
//! scan pipeline never touches them; clearing the library preserves
//! them.

use vstd::prelude::*;
use vstd::string::*;
use crate::models::{AppError, Setting, SettingV, str_opt_view};
use crate::seqtools::{first_match_idx, lemma_first_match_idx_props};
use crate::ordering::{lemma_sort_by_le_multiset, sort_by_le};
use crate::sorts::{setting_order_le, sort_settings};
use crate::store::{
    lemma_rows_view_push, lemma_rows_view_update, lemma_wf_setting_push, lemma_wf_setting_update,
    LibModel, Library, rows_view, setting_by_key, wf,
};
use vstd::relations::sorted_by;

verus! {

/// The stored value for a key, if any.
pub open spec fn spec_get_setting(m: LibModel, key: Seq<char>) -> Option<Seq<char>> {
    let f = first_match_idx(m.settings, setting_by_key(key));
    if f >= 0 {
        Some(m.settings[f].value)
    } else {
        None
    }
}

/// What storing a setting does: overwrite the value under an existing
/// key, else append the pair.
pub open spec fn spec_set_setting(m: LibModel, key: Seq<char>, value: Seq<char>) -> LibModel {
    let f = first_match_idx(m.settings, setting_by_key(key));
    if f >= 0 {
        LibModel { settings: m.settings.update(f, SettingV { key, value }), ..m }
    } else {
        LibModel { settings: m.settings.push(SettingV { key, value }), ..m }
    }
}

impl Library {
    /// The value stored under `key`, if any.
    pub fn get_setting_inner(&self, key: &str) -> (r: Result<Option<String>, AppError>)
        ensures
            r matches Ok(v) && str_opt_view(v) == spec_get_setting(self@, key@),
    {
        match self.find_setting_by_key(key) {
            Some(k) => {
                proof {
                    lemma_first_match_idx_props(self@.settings, setting_by_key(key@));
                }
                Ok(Some(self.settings[k].value.clone()))
            },
            None => Ok(None),
        }
    }

    /// Store `value` under `key`, overwriting any previous value.
    pub fn set_setting_inner(&mut self, key: &str, value: &str) -> (r: Result<(), AppError>)
        requires
            wf(old(self)@),
        ensures
            wf(final(self)@),
            final(self)@ == spec_set_setting(old(self)@, key@, value@),
            r is Ok,
    {
        let ghost m = old(self)@;
        match self.find_setting_by_key(key) {
            Some(k) => {
                proof {
                    lemma_first_match_idx_props(m.settings, setting_by_key(key@));
                }
                let st = Setting { key: String::from_str(key), value: String::from_str(value) };
                let ghost stg = st;
                self.settings[k] = st;
                proof {
                    lemma_rows_view_update(old(self).settings@, k as int, stg);
                    assert(self@ =~= spec_set_setting(m, key@, value@));
                    lemma_wf_setting_update(m, k as int, stg@);
                }
                Ok(())
            },
            None => {
                let st = Setting { key: String::from_str(key), value: String::from_str(value) };
                let ghost stg = st;
                self.settings.push(st);
                proof {
                    lemma_rows_view_push(old(self).settings@, stg);
                    assert(self@ =~= spec_set_setting(m, key@, value@));
                    lemma_first_match_idx_props(m.settings, setting_by_key(key@));
                    lemma_wf_setting_push(m, stg@);
                }
                Ok(())
            },
        }
    }

    /// All settings, sorted by key ascending.
    pub fn get_all_settings_inner(&self) -> (r: Result<Vec<Setting>, AppError>)
        ensures
            r matches Ok(v) && {
                &&& rows_view(v@) == sort_by_le(self@.settings, setting_order_le())
                &&& rows_view(v@).to_multiset() == self@.settings.to_multiset()
                &&& sorted_by(rows_view(v@), setting_order_le())
            },
    {
        let mut out: Vec<Setting> = Vec::new();
        let n = self.settings.len();
        let mut i: usize = 0;
        while i < n
            invariant
                i <= n,
                n == self.settings.len(),
                rows_view(out@) == self@.settings.subrange(0, i as int),
            decreases n - i,
        {
            let d = self.settings[i].duplicate();
            let ghost dg = d;
            let ghost before = out@;
            out.push(d);
            proof {
                lemma_rows_view_push(before, dg);
                assert(self@.settings.subrange(0, i + 1) =~= self@.settings.subrange(
                    0,
                    i as int,
                ).push(self@.settings[i as int]));
            }
            i += 1;
        }
        proof {
            assert(self@.settings.subrange(0, n as int) =~= self@.settings);
            lemma_sort_by_le_multiset(self@.settings, setting_order_le());
        }
        Ok(sort_settings(out))
    }
}

} // verus!
