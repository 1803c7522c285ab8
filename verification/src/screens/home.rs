//! The welcome screen: shows the banner, then signs the connected key in, or
//! leads to registration when the key is new.
use vstd::prelude::*;
use crate::conf::Conf;
use crate::database::{key_login_outcome, Database, User};
use crate::screens::screen::Transition;

verus! {

pub struct HomeScreen {
    conf: Conf,
    key: String,
}

/// Where the welcome screen leads: nowhere while the banner's animation
/// runs; then to the flags of the user holding `key`, or to registration
/// when no user holds it.
pub open spec fn home_leads(db: Database, key: Seq<char>, animation_done: bool, r: Option<Transition>) -> bool {
    &&& !animation_done ==> r is None
    &&& animation_done ==> match key_login_outcome(db.users@, key) {
        Some(u) => r matches Some(Transition::Browse(b)) && b@ == u,
        None => r matches Some(Transition::Register),
    }
}

impl HomeScreen {
    /// The welcome screen for the connected `key` (OpenSSH text form).
    pub fn new(conf: Conf, key: String) -> (s: HomeScreen)
        ensures
            s.conf() == conf,
            s.key()@ == key@,
    {
        HomeScreen { conf, key }
    }

    pub closed spec fn conf(&self) -> Conf {
        self.conf
    }

    pub closed spec fn key(&self) -> String {
        self.key
    }

    pub fn configuration(&self) -> (r: &Conf)
        ensures
            *r == self.conf(),
    {
        &self.conf
    }

    /// Once the banner's animation is over (`animation_done`), signs the key
    /// in and leads to that user's flags, or to registration when no user
    /// holds the key. Keys are ignored.
    pub fn handle_input(&self, db: &Database, animation_done: bool) -> (r: Option<Transition>)
        ensures
            home_leads(*db, self.key()@, animation_done, r),
    {
        if animation_done {
            match User::login_with_key(db, &self.key) {
                Some(u) => Some(Transition::Browse(u)),
                None => Some(Transition::Register),
            }
        } else {
            None
        }
    }
}


/// The pieces of `s` between line feeds (one more than there are line feeds).
pub open spec fn segments(s: Seq<char>) -> Seq<Seq<char>>
    decreases s.len(),
{
    if s.len() == 0 {
        seq![Seq::<char>::empty()]
    } else {
        let p = segments(s.drop_last());
        if s.last() == '\n' {
            p.push(Seq::empty())
        } else {
            p.update(p.len() - 1, p.last().push(s.last()))
        }
    }
}

/// A line without the carriage return of a `\r\n` ending.
pub open spec fn strip_cr(l: Seq<char>) -> Seq<char> {
    if l.len() > 0 && l.last() == '\r' { l.drop_last() } else { l }
}

/// The lines of `s` as `str::lines` yields them: split at line feeds, a
/// carriage return before a line feed dropped, and no empty line after a
/// final line feed.
pub open spec fn text_lines(s: Seq<char>) -> Seq<Seq<char>> {
    let segs = segments(s);
    let n = segs.len();
    let ended = Seq::new((n - 1) as nat, |i: int| strip_cr(segs[i]));
    if segs[n - 1].len() == 0 { ended } else { ended.push(segs[n - 1]) }
}

/// The length of the longest line, 0 without lines.
pub open spec fn longest(ls: Seq<Seq<char>>) -> nat
    decreases ls.len(),
{
    if ls.len() == 0 {
        0
    } else if ls.last().len() > longest(ls.drop_last()) {
        ls.last().len()
    } else {
        longest(ls.drop_last())
    }
}

proof fn lemma_segments_len(s: Seq<char>)
    ensures
        segments(s).len() >= 1,
        segments(s).len() <= s.len() + 1,
        segments(s).last().len() <= s.len(),
    decreases s.len(),
{
    if s.len() > 0 {
        lemma_segments_len(s.drop_last());
    }
}

/// The size of the banner on the welcome screen: how many lines it has, and
/// how many characters its longest line has.
pub fn banner_size(banner: &str) -> (r: (usize, usize))
    requires
        banner@.len() < usize::MAX,
    ensures
        r.0 == text_lines(banner@).len(),
        r.1 == longest(text_lines(banner@)),
{
    let mut count: usize = 0;
    let mut widest: usize = 0;
    let mut cur: usize = 0;
    let mut cur_cr = false;
    proof {
        assert(banner@.take(0) =~= Seq::<char>::empty());
        let segs = segments(banner@.take(0));
        assert(Seq::new(0nat, |i: int| strip_cr(segs[i])) =~= Seq::<Seq<char>>::empty());
    }
    for c in it: banner.chars()
        invariant
            it.seq() == banner@,
            banner@.len() < usize::MAX,
            ({
                let segs = segments(banner@.take(it.index() as int));
                &&& count + 1 == segs.len()
                &&& cur == segs.last().len()
                &&& cur_cr == (cur > 0 && segs.last().last() == '\r')
                &&& widest == longest(Seq::new(count as nat, |i: int| strip_cr(segs[i])))
                &&& cur <= it.index()
                &&& count <= it.index()
                &&& widest <= it.index()
            }),
    {
        let ghost k = it.index() as int;
        let ghost p = banner@.take(k);
        let ghost q = banner@.take(k + 1);
        let ghost segs = segments(p);
        proof {
            assert(q.drop_last() =~= p);
            assert(q.last() == c);
            lemma_segments_len(p);
        }
        if c == '\n' {
            let stripped: usize = if cur_cr { cur - 1 } else { cur };
            proof {
                let old_done = Seq::new(count as nat, |i: int| strip_cr(segs[i]));
                let nsegs = segments(q);
                assert(nsegs == segs.push(Seq::<char>::empty()));
                let new_done = Seq::new((count + 1) as nat, |i: int| strip_cr(nsegs[i]));
                assert(new_done.drop_last() =~= old_done);
                assert(new_done.last() == strip_cr(segs.last()));
                assert(strip_cr(segs.last()).len() == stripped);
            }
            if stripped > widest {
                widest = stripped;
            }
            count = count + 1;
            cur = 0;
            cur_cr = false;
        } else {
            proof {
                let nsegs = segments(q);
                assert(nsegs == segs.update(segs.len() - 1, segs.last().push(c)));
                let old_done = Seq::new(count as nat, |i: int| strip_cr(segs[i]));
                let new_done = Seq::new(count as nat, |i: int| strip_cr(nsegs[i]));
                assert(new_done =~= old_done);
            }
            cur = cur + 1;
            cur_cr = c == '\r';
        }
    }
    proof {
        assert(banner@.take(banner@.len() as int) =~= banner@);
        let segs = segments(banner@);
        let done = Seq::new(count as nat, |i: int| strip_cr(segs[i]));
        if cur > 0 {
            assert(done.push(segs.last()).drop_last() =~= done);
        }
    }
    if cur > 0 {
        if cur > widest {
            widest = cur;
        }
        count = count + 1;
    }
    (count, widest)
}

} // verus!
