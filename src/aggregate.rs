use vstd::prelude::*;

verus! {

/// One starred item of the remote listing: its identifier and, when the
/// remote knows it, its language.
#[derive(Clone, Debug, PartialEq, Eq)]
pub struct Item {
    pub id: i32,
    pub language: Option<String>,
}

/// How many items carry one language.
#[derive(Clone, Debug, PartialEq, Eq)]
pub struct LangCount {
    pub language: String,
    pub count: usize,
}

/// Whether `it` carries the language `l`.
pub open spec fn has_language(it: Item, l: Seq<char>) -> bool {
    match it.language {
        Some(s) => s@ == l,
        None => false,
    }
}

/// The number of items of `items` that carry the language `l`.
pub open spec fn language_count(items: Seq<Item>, l: Seq<char>) -> nat
    decreases items.len(),
{
    if items.len() == 0 {
        0
    } else {
        language_count(items.drop_last(), l) + if has_language(items.last(), l) {
            1nat
        } else {
            0nat
        }
    }
}

/// No language stands twice in `r`.
pub open spec fn keys_unique(r: Seq<LangCount>) -> bool {
    forall|i: int, j: int|
        0 <= i < j < r.len() ==> #[trigger] r[i].language@ != #[trigger] r[j].language@
}

/// `r` is the frequency table of the languages of `items`: each language
/// that some item carries stands exactly once, with the number of items that
/// carry it, and nothing else stands in it.
pub open spec fn is_frequency_table(r: Seq<LangCount>, items: Seq<Item>) -> bool {
    &&& keys_unique(r)
    &&& forall|i: int|
        0 <= i < r.len() ==> #[trigger] r[i].count == language_count(items, r[i].language@)
            && r[i].count > 0
    &&& forall|l: Seq<char>|
        #[trigger] language_count(items, l) > 0 ==> exists|i: int|
            0 <= i < r.len() && r[i].language@ == l
}

/// The count of a language never exceeds the number of items.
pub proof fn lemma_language_count_bounded(items: Seq<Item>, l: Seq<char>)
    ensures
        language_count(items, l) <= items.len(),
    decreases items.len(),
{
    if items.len() > 0 {
        lemma_language_count_bounded(items.drop_last(), l);
    }
}

/// Folds `items` into the number of items of each language; items without a
/// language are left out.
pub fn aggregate(items: &Vec<Item>) -> (r: Vec<LangCount>)
    ensures
        is_frequency_table(r@, items@),
{
    let mut r: Vec<LangCount> = Vec::new();
    let n: usize = items.len();
    let mut i: usize = 0;
    while i < n
        invariant
            n == items@.len(),
            0 <= i <= n,
            is_frequency_table(r@, items@.subrange(0, i as int)),
        decreases n - i,
    {
        let ghost prefix = items@.subrange(0, i as int);
        let ghost next = items@.subrange(0, i + 1);
        assert(next.drop_last() == prefix);
        proof {
            lemma_language_count_bounded(prefix, items@[i as int].language->Some_0@);
        }
        match &items[i].language {
            None => {
                assert forall|l: Seq<char>| language_count(next, l) == language_count(prefix, l) by {}
            },
            Some(lang) => {
                let mut j: usize = 0;
                while j < r.len()
                    invariant
                        0 <= j <= r.len(),
                        forall|k: int| 0 <= k < j ==> r@[k].language@ != lang@,
                    ensures
                        0 <= j <= r.len(),
                        forall|k: int| 0 <= k < j ==> r@[k].language@ != lang@,
                        j < r.len() ==> r@[j as int].language@ == lang@,
                    decreases r.len() - j,
                {
                    if r[j].language == *lang {
                        break;
                    }
                    j = j + 1;
                }
                let found: bool = j < r.len();
                let ghost before = r@;
                if found {
                    let c: usize = r[j].count;
                    r[j].count = c + 1;
                    assert forall|k: int| 0 <= k < r@.len() implies #[trigger] r@[k].count
                        == language_count(next, r@[k].language@) && r@[k].count > 0 by {
                        if k != j {
                            assert(before[k].language@ != before[j as int].language@);
                        }
                    }
                    assert forall|l: Seq<char>| #[trigger]
                        language_count(next, l) > 0 implies exists|k: int|
                        0 <= k < r@.len() && r@[k].language@ == l by {
                        if language_count(prefix, l) > 0 {
                            let k = choose|k: int| 0 <= k < before.len() && before[k].language@ == l;
                            assert(r@[k].language@ == l);
                        } else {
                            assert(r@[j as int].language@ == l);
                        }
                    }
                    assert(keys_unique(r@)) by {
                        assert forall|a: int, b: int| 0 <= a < b < r@.len() implies #[trigger]
                            r@[a].language@ != #[trigger] r@[b].language@ by {
                            assert(before[a].language@ != before[b].language@);
                        }
                    }
                } else {
                    r.push(LangCount { language: lang.clone(), count: 1 });
                    assert(language_count(prefix, lang@) == 0);
                    assert forall|k: int| 0 <= k < r@.len() implies #[trigger] r@[k].count
                        == language_count(next, r@[k].language@) && r@[k].count > 0 by {
                        if k < before.len() {
                            assert(before[k].language@ != lang@);
                        }
                    }
                    assert forall|l: Seq<char>| #[trigger]
                        language_count(next, l) > 0 implies exists|k: int|
                        0 <= k < r@.len() && r@[k].language@ == l by {
                        if language_count(prefix, l) > 0 {
                            let k = choose|k: int| 0 <= k < before.len() && before[k].language@ == l;
                            assert(r@[k].language@ == l);
                        } else {
                            assert(r@[before.len() as int].language@ == l);
                        }
                    }
                    assert(keys_unique(r@)) by {
                        assert forall|a: int, b: int| 0 <= a < b < r@.len() implies #[trigger]
                            r@[a].language@ != #[trigger] r@[b].language@ by {
                            if b < before.len() {
                                assert(before[a].language@ != before[b].language@);
                            }
                        }
                    }
                }
            },
        }
        i = i + 1;
    }
    assert(items@.subrange(0, n as int) == items@);
    r
}

} // verus!
