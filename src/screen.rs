use vstd::prelude::*;
use vstd::string::*;
use crate::types::UserRole;

verus! {

/// What `str::to_lowercase` makes of a text: the lowercase mapping of every
/// character, as Unicode defines it.
pub uninterp spec fn lower_of(s: Seq<char>) -> Seq<char>;

/// Relies on `str::to_lowercase`: its result depends on the characters of
/// the text alone.
#[verifier::external_body]
pub(crate) fn lowercase(s: &str) -> (r: String)
    ensures
        r@ == lower_of(s@),
{
    s.to_lowercase()
}

/// `needle` occurs in `hay` as a contiguous run of characters.
pub open spec fn occurs_in(needle: Seq<char>, hay: Seq<char>) -> bool {
    exists|i: int|
        0 <= i && i + needle.len() <= hay.len() && #[trigger] hay.subrange(i, i + needle.len())
            == needle
}

/// Relies on `str::contains` with a `&str` pattern: true exactly when the
/// pattern occurs in the text as a contiguous run.
#[verifier::external_body]
pub(crate) fn text_contains(hay: &str, needle: &str) -> (r: bool)
    ensures
        r == occurs_in(needle@, hay@),
{
    hay.contains(needle)
}

/// The reason recorded for a text that contains `keyword`.
pub open spec fn keyword_reason(keyword: Seq<char>) -> Seq<char> {
    "Contains banned keyword: "@ + keyword
}

/// The index of the first keyword of `kws` that occurs in `text`, if any.
pub open spec fn first_hit(kws: Seq<Seq<char>>, text: Seq<char>, k: int) -> bool {
    &&& 0 <= k < kws.len()
    &&& occurs_in(kws[k], text)
    &&& forall|j: int| 0 <= j < k ==> !occurs_in(#[trigger] kws[j], text)
}

/// The reason naming the first keyword of `kws` that occurs in the
/// already lowercased text `low`, if any.
pub open spec fn verdict_on(kws: Seq<Seq<char>>, low: Seq<char>) -> Option<Seq<char>> {
    if exists|k: int| first_hit(kws, low, k) {
        Some(keyword_reason(kws[choose|k: int| first_hit(kws, low, k)]))
    } else {
        None
    }
}

/// The verdict of screening `text` against the keyword list `kws`: the
/// reason naming the first keyword that occurs in the lowercased text.
pub open spec fn screen_verdict(kws: Seq<Seq<char>>, text: Seq<char>) -> Option<Seq<char>> {
    verdict_on(kws, lower_of(text))
}

/// A keyword-based classifier for user supplied text. Keywords are held in
/// lowercase form, each at most once.
pub struct ContentScreen {
    pub keywords: Vec<String>,
}

impl ContentScreen {
    /// The keyword list, as character sequences.
    pub open spec fn view(&self) -> Seq<Seq<char>> {
        self.keywords@.map_values(|k: String| k@)
    }

    pub open spec fn wf(&self) -> bool {
        self@.no_duplicates()
    }

    /// A screen seeded with the default keyword list.
    pub fn new() -> (r: ContentScreen)
        ensures
            r.wf(),
            r@ == (seq!["spam"@, "scam"@, "fake"@, "copyright"@, "illegal"@]),
    {
        let mut keywords: Vec<String> = Vec::new();
        keywords.push(String::from_str("spam"));
        keywords.push(String::from_str("scam"));
        keywords.push(String::from_str("fake"));
        keywords.push(String::from_str("copyright"));
        keywords.push(String::from_str("illegal"));
        let r = ContentScreen { keywords };
        proof {
            reveal_strlit("spam");
            reveal_strlit("scam");
            reveal_strlit("fake");
            reveal_strlit("copyright");
            reveal_strlit("illegal");
            assert(r@ =~= seq!["spam"@, "scam"@, "fake"@, "copyright"@, "illegal"@]);
            assert(r@.no_duplicates()) by {
                assert forall|i: int, j: int|
                    0 <= i < r@.len() && 0 <= j < r@.len() && i != j implies r@[i] != r@[j] by {
                    if r@[i] == r@[j] {
                        assert(r@[i][1] == r@[j][1]);
                        assert(r@[i][0] == r@[j][0]);
                        assert(r@[i].len() == r@[j].len());
                    }
                }
            }
        }
        r
    }

    /// Screens `content`: the reason naming the first keyword that occurs in
    /// the lowercased text, or `None` when none does.
    pub fn check_content_for_banned_words(&self, content: &str) -> (r: Option<String>)
        ensures
            (r matches Some(reason) ==> screen_verdict(self@, content@) == Some(reason@)),
            (r is None ==> (screen_verdict(self@, content@) is None)),
    {
        let low = lowercase(content);
        self.scan_lowered(low.as_str())
    }

    /// Screens a text that is already lowercase: the reason naming the first
    /// keyword that occurs in it, or `None` when none does.
    pub fn scan_lowered(&self, low: &str) -> (r: Option<String>)
        ensures
            (r matches Some(reason) ==> verdict_on(self@, low@) == Some(reason@)),
            (r is None ==> (verdict_on(self@, low@) is None)),
    {
        let mut i: usize = 0;
        while i < self.keywords.len()
            invariant
                i <= self.keywords@.len(),
                forall|j: int| 0 <= j < i ==> !occurs_in(#[trigger] self@[j], low@),
            decreases self.keywords@.len() - i,
        {
            let kw = &self.keywords[i];
            if text_contains(low, kw.as_str()) {
                let mut reason = String::from_str("Contains banned keyword: ");
                reason.append(kw.as_str());
                proof {
                    assert(first_hit(self@, low@, i as int));
                    let k = choose|k: int| first_hit(self@, low@, k);
                    assert(k == i as int) by {
                        if k < i {
                            assert(!occurs_in(self@[k], low@));
                        } else if k > i {
                            assert(!occurs_in(self@[i as int], low@));
                        }
                    }
                }
                return Some(reason);
            }
            i = i + 1;
        }
        proof {
            assert forall|k: int| !first_hit(self@, low@, k) by {
                if 0 <= k < self@.len() {
                    assert(!occurs_in(self@[k], low@));
                }
            }
        }
        None
    }

    /// A copy of the keyword list.
    pub fn list_banned_keywords(&self) -> (r: Vec<String>)
        ensures
            r@.map_values(|k: String| k@) == self@,
    {
        let r = self.keywords.clone();
        assert(r@ =~= self.keywords@);
        r
    }

    /// Adds `keyword`, lowercased, unless the caller is no administrator or
    /// the lowercased keyword is already listed. True when it was added.
    pub fn add_banned_keyword(&mut self, keyword: &str, caller_role: UserRole) -> (r: bool)
        requires
            old(self).wf(),
        ensures
            final(self).wf(),
            r == (caller_role == UserRole::Admin && !old(self)@.contains(lower_of(keyword@))),
            r ==> final(self)@ == old(self)@.push(lower_of(keyword@)),
            !r ==> final(self)@ == old(self)@,
    {
        if caller_role != UserRole::Admin {
            return false;
        }
        let low = lowercase(keyword);
        let mut i: usize = 0;
        while i < self.keywords.len()
            invariant
                low@ == lower_of(keyword@),
                self@ == old(self)@,
                self.wf(),
                i <= self.keywords@.len(),
                forall|j: int| 0 <= j < i ==> #[trigger] self@[j] != low@,
            decreases self.keywords@.len() - i,
        {
            if self.keywords[i] == low {
                assert(self@[i as int] == low@);
                return false;
            }
            i = i + 1;
        }
        let ghost before = self@;
        self.keywords.push(low);
        assert(self@ =~= before.push(lower_of(keyword@)));
        true
    }

    /// Removes `keyword`, lowercased, when the caller is an administrator.
    /// True when it was listed and is now gone.
    pub fn remove_banned_keyword(&mut self, keyword: &str, caller_role: UserRole) -> (r: bool)
        requires
            old(self).wf(),
        ensures
            final(self).wf(),
            r == (caller_role == UserRole::Admin && old(self)@.contains(lower_of(keyword@))),
            caller_role == UserRole::Admin ==> final(self)@ == old(self)@.filter(
                |k: Seq<char>| k != lower_of(keyword@),
            ),
            caller_role != UserRole::Admin ==> final(self)@ == old(self)@,
    {
        if caller_role != UserRole::Admin {
            return false;
        }
        let low = lowercase(keyword);
        let ghost target = low@;
        let ghost pred = |k: Seq<char>| k != target;
        let ghost old_view = self@;
        let mut kept: Vec<String> = Vec::new();
        let mut removed = false;
        let mut i: usize = 0;
        while i < self.keywords.len()
            invariant
                low@ == lower_of(keyword@),
                target == low@,
                pred == (|k: Seq<char>| k != target),
                old_view == self@,
                i <= self.keywords@.len(),
                kept@.map_values(|k: String| k@) == old_view.subrange(0, i as int).filter(pred),
                removed == old_view.subrange(0, i as int).contains(target),
            decreases self.keywords@.len() - i,
        {
            let ghost prev = kept@.map_values(|k: String| k@);
            let ghost sub = old_view.subrange(0, i as int + 1);
            assert(sub.drop_last() =~= old_view.subrange(0, i as int));
            assert(sub.last() == old_view[i as int]);
            reveal(Seq::filter);
            if self.keywords[i] == low {
                removed = true;
                assert(sub.contains(target)) by {
                    assert(sub[i as int] == target);
                }
            } else {
                kept.push(self.keywords[i].clone());
                assert(kept@.map_values(|k: String| k@) =~= prev.push(old_view[i as int]));
                assert(sub.contains(target) == old_view.subrange(0, i as int).contains(target)) by {
                    if sub.contains(target) {
                        let j = choose|j: int| 0 <= j < sub.len() && sub[j] == target;
                        assert(old_view.subrange(0, i as int)[j] == target);
                    }
                    if old_view.subrange(0, i as int).contains(target) {
                        let j = choose|j: int| 0 <= j < i && old_view.subrange(0, i as int)[j] == target;
                        assert(sub[j] == target);
                    }
                }
            }
            i = i + 1;
        }
        assert(old_view.subrange(0, old_view.len() as int) =~= old_view);
        self.keywords = kept;
        proof {
            let f = old_view.filter(pred);
            assert(f.no_duplicates()) by {
                lemma_filter_keeps_distinct(old_view, pred);
            }
        }
        removed
    }
}

/// Filtering a sequence without duplicates leaves one without duplicates.
proof fn lemma_filter_keeps_distinct(s: Seq<Seq<char>>, pred: spec_fn(Seq<char>) -> bool)
    requires
        s.no_duplicates(),
    ensures
        s.filter(pred).no_duplicates(),
    decreases s.len(),
{
    reveal(Seq::filter);
    if s.len() > 0 {
        let d = s.drop_last();
        assert(d.no_duplicates());
        lemma_filter_keeps_distinct(d, pred);
        let f = d.filter(pred);
        if pred(s.last()) {
            assert(!f.contains(s.last())) by {
                if f.contains(s.last()) {
                    let j = choose|j: int| 0 <= j < f.len() && f[j] == s.last();
                    broadcast use Seq::lemma_filter_len;
                    #[allow(deprecated)]
                    d.filter_lemma(pred);
                    lemma_filter_subset(d, pred, j);
                }
            }
        }
    }
}

/// Every element of a filtered sequence is an element of the sequence.
proof fn lemma_filter_subset(s: Seq<Seq<char>>, pred: spec_fn(Seq<char>) -> bool, j: int)
    requires
        0 <= j < s.filter(pred).len(),
    ensures
        s.contains(s.filter(pred)[j]),
    decreases s.len(),
{
    reveal(Seq::filter);
    if s.len() > 0 {
        let d = s.drop_last();
        let f = d.filter(pred);
        if j < f.len() {
            lemma_filter_subset(d, pred, j);
            let k = choose|k: int| 0 <= k < d.len() && d[k] == f[j];
            assert(s[k] == d[k]);
        } else {
            assert(s[s.len() - 1] == s.filter(pred)[j]);
        }
    }
}

} // verus!
