//! The positions being watched, one per stock code, and what a quote does
//! to them.
use crate::config::AlertConfig;
use crate::engine::{
    drawdown_fires, events_for, fired_rules, flags_after, level1_fires, level2_fires, loss_fires,
    AlertEngine,
};
use crate::json::text_eq;
use crate::models::{same_but_prices, AlertEvent, AlertRule, Quote, StockPosition};
use vstd::prelude::*;

verus! {

/// The index of the position with code `code`, if any (codes are unique).
pub open spec fn position_index(s: Seq<StockPosition>, code: Seq<char>) -> Option<int> {
    if exists|i: int| 0 <= i < s.len() && s[i].code@ == code {
        Some(choose|i: int| 0 <= i < s.len() && s[i].code@ == code)
    } else {
        None
    }
}

pub open spec fn codes_unique(s: Seq<StockPosition>) -> bool {
    forall|i: int, j: int| 0 <= i < s.len() && 0 <= j < s.len() && i != j ==> s[i].code@ != s[j].code@
}

/// The last position in `s` with code `code`.
pub open spec fn last_with_code(s: Seq<StockPosition>, code: Seq<char>) -> Option<StockPosition>
    decreases s.len(),
{
    if s.len() == 0 {
        None
    } else if s.last().code@ == code {
        Some(s.last())
    } else {
        last_with_code(s.drop_last(), code)
    }
}

/// The rules of the given alerts, in order.
pub open spec fn rules_of(events: Seq<AlertEvent>) -> Seq<AlertRule> {
    events.map_values(|e: AlertEvent| e.rule)
}

/// `b` is `a` after `update_price(price)`.
pub open spec fn price_updated(a: StockPosition, b: StockPosition, price: u64) -> bool {
    &&& b.current_price == price
    &&& b.highest_price_since_buy == (if price > a.highest_price_since_buy {
        price
    } else {
        a.highest_price_since_buy
    })
    &&& b.updated_at is Some
    &&& same_but_prices(a, b)
}

/// Some rule of `rules` satisfies `p`.
pub open spec fn has_rule(rules: Seq<AlertRule>, p: spec_fn(AlertRule) -> bool) -> bool {
    exists|i: int| 0 <= i < rules.len() && #[trigger] p(rules[i])
}

/// `b` is `a` with the flags named by the fired rules set: a profit rule
/// whose threshold is the first configured one sets level 1, else the
/// second one sets level 2; a loss rule sets the loss flag; a draw-down
/// rule sets the draw-down flag.
pub open spec fn flags_marked(cfg: AlertConfig, a: StockPosition, rules: Seq<AlertRule>, b: StockPosition) -> bool {
    &&& b == StockPosition {
        profit_threshold_level1_alerted: b.profit_threshold_level1_alerted,
        profit_threshold_level2_alerted: b.profit_threshold_level2_alerted,
        loss_threshold_alerted: b.loss_threshold_alerted,
        profit_drawdown_half_alerted: b.profit_drawdown_half_alerted,
        ..a
    }
    &&& b.profit_threshold_level1_alerted == (a.profit_threshold_level1_alerted || has_rule(
        rules,
        |r: AlertRule| r == AlertRule::ProfitThreshold(cfg.profit_thresholds[0]),
    ))
    &&& b.profit_threshold_level2_alerted == (a.profit_threshold_level2_alerted || has_rule(
        rules,
        |r: AlertRule|
            r == AlertRule::ProfitThreshold(cfg.profit_thresholds[1]) && cfg.profit_thresholds[1]
                != cfg.profit_thresholds[0],
    ))
    &&& b.loss_threshold_alerted == (a.loss_threshold_alerted || has_rule(
        rules,
        |r: AlertRule| r is LossThreshold,
    ))
    &&& b.profit_drawdown_half_alerted == (a.profit_drawdown_half_alerted || has_rule(
        rules,
        |r: AlertRule| r is ProfitDrawdownHalf,
    ))
}

/// A prefix one rule longer has a rule satisfying `p` exactly when the
/// shorter one has, or the added rule satisfies it.
pub proof fn lemma_has_rule_step(rules: Seq<AlertRule>, k: int, p: spec_fn(AlertRule) -> bool)
    requires
        0 <= k < rules.len(),
    ensures
        has_rule(rules.take(k + 1), p) == (has_rule(rules.take(k), p) || p(rules[k])),
{
    let ts = rules.take(k + 1);
    let tk = rules.take(k);
    if has_rule(tk, p) {
        let j = choose|j: int| 0 <= j < tk.len() && #[trigger] p(tk[j]);
        assert(ts[j] == tk[j]);
    }
    if has_rule(ts, p) {
        let j = choose|j: int| 0 <= j < ts.len() && #[trigger] p(ts[j]);
        if j < k {
            assert(ts[j] == tk[j]);
        }
    }
    if p(rules[k]) {
        assert(ts[k] == rules[k]);
    }
}

pub proof fn lemma_position_index_at(s: Seq<StockPosition>, code: Seq<char>, j: int)
    requires
        codes_unique(s),
        0 <= j < s.len(),
        s[j].code@ == code,
    ensures
        position_index(s, code) == Some(j),
{
    let k = choose|k: int| 0 <= k < s.len() && s[k].code@ == code;
    assert(k == j);
}

pub proof fn lemma_position_index_none(s: Seq<StockPosition>, code: Seq<char>)
    requires
        forall|j: int| 0 <= j < s.len() ==> s[j].code@ != code,
    ensures
        position_index(s, code) is None,
{
}

/// The watched positions, keyed by stock code.
pub struct PositionBook {
    positions: Vec<StockPosition>,
}

impl View for PositionBook {
    type V = Seq<StockPosition>;

    closed spec fn view(&self) -> Seq<StockPosition> {
        self.positions@
    }
}

impl PositionBook {
    #[verifier::type_invariant]
    spec fn one_per_code(&self) -> bool {
        codes_unique(self.positions@)
    }

    fn find(&self, code: &str) -> (r: Option<usize>)
        ensures
            match r {
                Some(i) => i < self@.len() && self@[i as int].code@ == code@,
                None => forall|i: int| 0 <= i < self@.len() ==> self@[i].code@ != code@,
            },
    {
        let mut i: usize = 0;
        while i < self.positions.len()
            invariant
                i <= self.positions@.len(),
                forall|j: int| 0 <= j < i ==> self.positions@[j].code@ != code@,
            decreases self.positions.len() - i,
        {
            if text_eq(self.positions[i].code.as_str(), code) {
                return Some(i);
            }
            i = i + 1;
        }
        None
    }

    /// An empty book.
    pub fn new() -> (r: Self)
        ensures
            r@ == Seq::<StockPosition>::empty(),
    {
        PositionBook { positions: Vec::new() }
    }

    /// Puts a position in the book, in place of the one with the same
    /// code if there is one.
    pub fn insert(&mut self, position: StockPosition)
        ensures
            match position_index(old(self)@, position.code@) {
                Some(i) => final(self)@ == old(self)@.update(i, position),
                None => final(self)@ == old(self)@.push(position),
            },
    {
        proof {
            use_type_invariant(&*self);
        }
        match self.find(position.code.as_str()) {
            Some(i) => {
                proof {
                    let k = choose|k: int| 0 <= k < self@.len() && self@[k].code@ == position.code@;
                    assert(k == i);
                }
                let mut positions: Vec<StockPosition> = Vec::new();
                std::mem::swap(&mut positions, &mut self.positions);
                positions.set(i, position);
                proof {
                    assert forall|a: int, b: int|
                        0 <= a < positions@.len() && 0 <= b < positions@.len() && a != b implies positions@[a].code@
                        != positions@[b].code@ by {
                        if a != i && b != i {
                            assert(positions@[a] == old(self)@[a]);
                            assert(positions@[b] == old(self)@[b]);
                        } else if a == i {
                            assert(positions@[b] == old(self)@[b]);
                        } else {
                            assert(positions@[a] == old(self)@[a]);
                        }
                    }
                }
                self.positions = positions;
            },
            None => {
                let mut positions: Vec<StockPosition> = Vec::new();
                std::mem::swap(&mut positions, &mut self.positions);
                positions.push(position);
                proof {
                    assert forall|a: int, b: int|
                        0 <= a < positions@.len() && 0 <= b < positions@.len() && a != b implies positions@[a].code@
                        != positions@[b].code@ by {
                        if a < old(self)@.len() && b < old(self)@.len() {
                            assert(positions@[a] == old(self)@[a]);
                            assert(positions@[b] == old(self)@[b]);
                        } else if a < old(self)@.len() {
                            assert(positions@[a] == old(self)@[a]);
                        } else {
                            assert(positions@[b] == old(self)@[b]);
                        }
                    }
                }
                self.positions = positions;
            },
        }
    }

    /// A book of the given positions; of two with the same code, the later
    /// one is kept.
    pub fn from_positions(positions: Vec<StockPosition>) -> (r: Self)
        ensures
            forall|code: Seq<char>|
                #[trigger] last_with_code(positions@, code) == match position_index(r@, code) {
                    Some(i) => Some(r@[i]),
                    None => None::<StockPosition>,
                },
    {
        let mut book = PositionBook::new();
        let mut rest = positions;
        let ghost all = rest@;
        let mut i: usize = 0;
        let n = rest.len();
        while i < n
            invariant
                n == all.len(),
                i <= n,
                rest@ == all.skip(i as int),
                forall|code: Seq<char>|
                    #[trigger] last_with_code(all.take(i as int), code) == match position_index(
                        book@,
                        code,
                    ) {
                        Some(k) => Some(book@[k]),
                        None => None::<StockPosition>,
                    },
            decreases n - i,
        {
            proof {
                use_type_invariant(&book);
            }
            assert(rest@[0] == all[i as int]);
            let p = rest.remove(0);
            assert(rest@ =~= all.skip(i + 1));
            let ghost old_book = book@;
            assert(p == all[i as int]);
            book.insert(p);
            proof {
                use_type_invariant(&book);
                assert(all.take(i + 1).drop_last() =~= all.take(i as int));
                assert forall|code: Seq<char>|
                    #[trigger] last_with_code(all.take(i + 1), code) == match position_index(
                        book@,
                        code,
                    ) {
                        Some(k) => Some(book@[k]),
                        None => None::<StockPosition>,
                    } by {
                    assert(all.take(i + 1).last() == p);
                    assert(last_with_code(all.take(i as int), code) == match position_index(
                        old_book,
                        code,
                    ) {
                        Some(k) => Some(old_book[k]),
                        None => None::<StockPosition>,
                    });
                    if code == p.code@ {
                        match position_index(old_book, code) {
                            Some(k) => {
                                assert(book@[k] == p);
                                lemma_position_index_at(book@, code, k);
                            },
                            None => {
                                assert(book@[old_book.len() as int] == p);
                                lemma_position_index_at(book@, code, old_book.len() as int);
                            },
                        }
                    } else {
                        match position_index(old_book, code) {
                            Some(k) => {
                                assert(old_book[k].code@ == code);
                                assert(book@[k] == old_book[k]);
                                lemma_position_index_at(book@, code, k);
                            },
                            None => {
                                assert forall|j: int| 0 <= j < book@.len() implies book@[j].code@ != code by {
                                    if j < old_book.len() && book@[j] != p {
                                        assert(book@[j] == old_book[j]);
                                    }
                                }
                                lemma_position_index_none(book@, code);
                            },
                        }
                    }
                }
            }
            i = i + 1;
        }
        assert(all.take(n as int) =~= all);
        book
    }

    /// Removes the position with code `code`, if there is one.
    pub fn remove(&mut self, code: &str) -> (r: Option<StockPosition>)
        ensures
            match position_index(old(self)@, code@) {
                Some(i) => r == Some(old(self)@[i]) && final(self)@ == old(self)@.remove(i),
                None => r is None && final(self)@ == old(self)@,
            },
    {
        proof {
            use_type_invariant(&*self);
        }
        match self.find(code) {
            Some(i) => {
                proof {
                    let k = choose|k: int| 0 <= k < self@.len() && self@[k].code@ == code@;
                    assert(k == i);
                }
                let mut positions: Vec<StockPosition> = Vec::new();
                std::mem::swap(&mut positions, &mut self.positions);
                let p = positions.remove(i);
                proof {
                    assert forall|a: int, b: int|
                        0 <= a < positions@.len() && 0 <= b < positions@.len() && a != b implies positions@[a].code@
                        != positions@[b].code@ by {
                        let a0 = if a < i { a } else { a + 1 };
                        let b0 = if b < i { b } else { b + 1 };
                        assert(positions@[a] == old(self)@[a0]);
                        assert(positions@[b] == old(self)@[b0]);
                    }
                }
                self.positions = positions;
                Some(p)
            },
            None => None,
        }
    }

    /// The positions, in the book's order.
    pub fn positions(&self) -> (r: &Vec<StockPosition>)
        ensures
            r@ == self@,
    {
        &self.positions
    }

    /// Handles a quote: the position with the quote's code takes the new
    /// price, the engine fires its alerts, and the fired rules' flags are
    /// set (see `flags_marked`). A quote for a code not in the book changes
    /// nothing and fires nothing.
    pub fn handle_quote(&mut self, engine: &mut AlertEngine, alert: &AlertConfig, quote: &Quote) -> (events: Vec<AlertEvent>)
        ensures
            final(engine)@ == old(engine)@,
            position_index(old(self)@, quote.code@) is None ==> final(self)@ == old(self)@
                && events@.len() == 0,
            position_index(old(self)@, quote.code@) matches Some(i) ==> final(self)@ == old(
                self,
            )@.update(i, final(self)@[i]),
            position_index(old(self)@, quote.code@) matches Some(i) ==> exists|
                updated: StockPosition,
                fired: StockPosition,
            |
                #[trigger] price_updated(old(self)@[i], updated, quote.price) && #[trigger] flags_after(
                    old(engine)@,
                    updated,
                    fired,
                ) && events_for(old(engine)@, events@, updated) && flags_marked(
                    *alert,
                    fired,
                    rules_of(events@),
                    final(self)@[i],
                ),
            position_index(old(self)@, quote.code@) matches Some(i) ==> (old(engine)@ == *alert
                ==> fired_flags(*alert, at_price(old(self)@[i], quote.price), final(self)@[i])),
    {
        proof {
            use_type_invariant(&*self);
        }
        let i = match self.find(quote.code.as_str()) {
            Some(i) => i,
            None => {
                return Vec::new();
            },
        };
        proof {
            let k = choose|k: int| 0 <= k < self@.len() && self@[k].code@ == quote.code@;
            assert(k == i);
        }
        let mut positions: Vec<StockPosition> = Vec::new();
                std::mem::swap(&mut positions, &mut self.positions);
        let mut position = positions.remove(i);
        let ghost before = position;
        position.update_price(quote.price);
        let ghost updated = position;
        let events = engine.process_update(&mut position);
        let ghost fired = position;
        let ghost rules = rules_of(events@);
        let mut k: usize = 0;
        while k < events.len()
            invariant
                k <= events@.len(),
                rules == rules_of(events@),
                flags_marked(*alert, fired, rules.take(k as int), position),
            decreases events.len() - k,
        {
            match events[k].rule {
                AlertRule::ProfitThreshold(t) => {
                    if t == alert.profit_thresholds[0] {
                        position.profit_threshold_level1_alerted = true;
                    } else if t == alert.profit_thresholds[1] {
                        position.profit_threshold_level2_alerted = true;
                    }
                },
                AlertRule::LossThreshold(_) => {
                    position.loss_threshold_alerted = true;
                },
                AlertRule::ProfitDrawdownHalf => {
                    position.profit_drawdown_half_alerted = true;
                },
            }
            proof {
                let t0 = alert.profit_thresholds[0];
                let t1 = alert.profit_thresholds[1];
                lemma_has_rule_step(rules, k as int, |r: AlertRule| r == AlertRule::ProfitThreshold(t0));
                lemma_has_rule_step(
                    rules,
                    k as int,
                    |r: AlertRule| r == AlertRule::ProfitThreshold(t1) && t1 != t0,
                );
                lemma_has_rule_step(rules, k as int, |r: AlertRule| r is LossThreshold);
                lemma_has_rule_step(rules, k as int, |r: AlertRule| r is ProfitDrawdownHalf);
                assert(rules[k as int] == events@[k as int].rule);
            }
            k = k + 1;
        }
        assert(rules.take(events@.len() as int) =~= rules);
        positions.insert(i, position);
        proof {
            assert(positions@ =~= old(self)@.update(i as int, position));
            assert forall|a: int, b: int|
                0 <= a < positions@.len() && 0 <= b < positions@.len() && a != b implies positions@[a].code@
                != positions@[b].code@ by {
                if a != i {
                    assert(positions@[a] == old(self)@[a]);
                }
                if b != i {
                    assert(positions@[b] == old(self)@[b]);
                }
            }
        }
        self.positions = positions;
        proof {
            lemma_position_index_at(old(self)@, quote.code@, i as int);
            assert(before == old(self)@[i as int]);
            assert(price_updated(old(self)@[i as int], updated, quote.price));
            assert(flags_after(old(engine)@, updated, fired));
            assert(self@[i as int] == position);
            assert(events_for(old(engine)@, events@, updated));
            assert(flags_marked(*alert, fired, rules_of(events@), self@[i as int]));
            assert(self@ == old(self)@.update(i as int, self@[i as int]));
            let j = position_index(old(self)@, quote.code@)->Some_0;
            assert(j == i);
            assert(price_updated(old(self)@[j], updated, quote.price));
            assert(flags_after(old(engine)@, updated, fired));
            assert(events_for(old(engine)@, events@, updated));
            assert(flags_marked(*alert, fired, rules_of(events@), self@[j]));
            if old(engine)@ == *alert {
                law_quote_sets_fired_flags(*alert, updated, fired, events@, self@[j]);
                assert(fired_flags(*alert, at_price(old(self)@[j], quote.price), self@[j]));
            }
        }
        events
    }
}

/// A quote only touches the position with its code: every other position
/// is left as it was.
pub proof fn law_quote_touches_one_position(
    before: Seq<StockPosition>,
    after: Seq<StockPosition>,
    i: int,
    j: int,
)
    requires
        0 <= i < before.len(),
        0 <= j < before.len(),
        i != j,
        after == before.update(i, after[i]),
    ensures
        after[j] == before[j],
{
}

/// `p` after `update_price(price)`, but for its update time.
pub open spec fn at_price(p: StockPosition, price: u64) -> StockPosition {
    StockPosition {
        current_price: price,
        highest_price_since_buy: if price > p.highest_price_since_buy {
            price
        } else {
            p.highest_price_since_buy
        },
        ..p
    }
}

/// The flags of `b` are those of `p` plus those of the alerts fired for
/// `p`: level 2 when it fires, level 1 when it fires (with two different
/// thresholds), loss and draw-down when they fire.
pub open spec fn fired_flags(cfg: AlertConfig, p: StockPosition, b: StockPosition) -> bool {
    &&& b.profit_threshold_level2_alerted == (p.profit_threshold_level2_alerted || level2_fires(
        cfg,
        p,
    ))
    &&& cfg.profit_thresholds[0] != cfg.profit_thresholds[1] ==> b.profit_threshold_level1_alerted
        == (p.profit_threshold_level1_alerted || level1_fires(cfg, p))
    &&& b.loss_threshold_alerted == (p.loss_threshold_alerted || loss_fires(cfg, p))
    &&& b.profit_drawdown_half_alerted == (p.profit_drawdown_half_alerted || drawdown_fires(cfg, p))
}

/// Handling a quote sets a flag only for an alert the engine fired on the
/// updated position, and sets the flag of every alert it fired: the
/// level-2 flag exactly when level 2 fired (a level-1 alert never sets it
/// when the two thresholds differ), the level-1 flag exactly when level 1
/// fired (with two different thresholds), and likewise the loss and
/// draw-down flags; a set flag stays set.
pub proof fn law_quote_sets_fired_flags(
    cfg: AlertConfig,
    updated: StockPosition,
    fired: StockPosition,
    events: Seq<AlertEvent>,
    b: StockPosition,
)
    requires
        flags_after(cfg, updated, fired),
        events_for(cfg, events, updated),
        flags_marked(cfg, fired, rules_of(events), b),
    ensures
        b.profit_threshold_level2_alerted == (updated.profit_threshold_level2_alerted
            || level2_fires(cfg, updated)),
        cfg.profit_thresholds[0] != cfg.profit_thresholds[1] ==> b.profit_threshold_level1_alerted
            == (updated.profit_threshold_level1_alerted || level1_fires(cfg, updated)),
        b.loss_threshold_alerted == (updated.loss_threshold_alerted || loss_fires(cfg, updated)),
        b.profit_drawdown_half_alerted == (updated.profit_drawdown_half_alerted || drawdown_fires(
            cfg,
            updated,
        )),
{
    let rules = rules_of(events);
    let fr = fired_rules(cfg, updated);
    assert(rules =~= fr) by {
        assert forall|i: int| 0 <= i < rules.len() implies rules[i] == fr[i] by {
            assert(rules[i] == events[i].rule);
        }
    }
    let t0 = cfg.profit_thresholds[0];
    let t1 = cfg.profit_thresholds[1];
    let p0 = |r: AlertRule| r == AlertRule::ProfitThreshold(t0);
    let p1 = |r: AlertRule| r == AlertRule::ProfitThreshold(t1) && t1 != t0;
    let pl = |r: AlertRule| r is LossThreshold;
    let pd = |r: AlertRule| r is ProfitDrawdownHalf;
    if fr.len() > 0 {
        assert(p0(fr[0]) || p1(fr[0]) || pl(fr[0]) || pd(fr[0]) || true);
    }
    if fr.len() > 1 {
        assert(fr[1] is ProfitDrawdownHalf);
    }
    if level2_fires(cfg, updated) && t1 != t0 {
        assert(p1(fr[0]));
    }
    if level1_fires(cfg, updated) {
        assert(p0(fr[0]));
    }
    if loss_fires(cfg, updated) {
        assert(pl(fr[0]));
    }
    if drawdown_fires(cfg, updated) {
        assert(pd(fr[fr.len() - 1]));
    }
    if has_rule(fr, p1) {
        let j = choose|j: int| 0 <= j < fr.len() && #[trigger] p1(fr[j]);
        assert(j == 0);
    }
    if has_rule(fr, p0) && t0 != t1 {
        let j = choose|j: int| 0 <= j < fr.len() && #[trigger] p0(fr[j]);
        assert(j == 0);
    }
    if has_rule(fr, pl) {
        let j = choose|j: int| 0 <= j < fr.len() && #[trigger] pl(fr[j]);
        assert(j == 0);
    }
}

} // verus!
