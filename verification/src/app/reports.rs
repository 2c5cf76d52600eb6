//! The report and search panels: daily report, sales analytics, bill search
//! and the customer profile shown while a mobile number is typed. Their
//! figures come from the database, which the caller queries.
use vstd::prelude::*;

use super::orders::msg3;
use super::{App, AppEffect};
use crate::models::Focus;
use crate::text::{decimal, decimal_seq, trim, trim_seq};
use vstd::utf8::encode_utf8;

verus! {

impl<M> App<M> {
    /// Opens the sales analytics panel; the caller works out the figures.
    pub fn open_sales_analytics(&mut self)
        ensures
            final(self).pending_effects@ == old(self).pending_effects@.push(AppEffect::OpenSalesAnalytics),
            *final(self) == (App {
                pending_effects: final(self).pending_effects,
                focus_return: old(self).focus,
                focus: Focus::Analytics,
                ..*old(self)
            }),
    {
        self.queue_effect(AppEffect::OpenSalesAnalytics);
        self.focus_return = self.focus;
        self.focus = Focus::Analytics;
    }

    /// Opens the daily report; the caller works out today's summary.
    pub fn open_daily_report(&mut self)
        ensures
            final(self).pending_effects@ == old(self).pending_effects@.push(AppEffect::OpenDailyReport),
            *final(self) == (App {
                pending_effects: final(self).pending_effects,
                focus_return: old(self).focus,
                focus: Focus::DailyReport,
                ..*old(self)
            }),
    {
        self.queue_effect(AppEffect::OpenDailyReport);
        self.focus_return = self.focus;
        self.focus = Focus::DailyReport;
    }

    /// Queues printing the Z-report of the summary shown.
    pub fn print_daily_report(&mut self)
        ensures
            final(self).pending_effects@ == old(self).pending_effects@.push(AppEffect::PrintDailyReport),
            *final(self) == (App { pending_effects: final(self).pending_effects, ..*old(self) }),
    {
        self.queue_effect(AppEffect::PrintDailyReport);
    }
}

/// `after` is `before` once the bill search was opened (see `open_bill_search`).
pub open spec fn bill_search_opened<M>(before: App<M>, after: App<M>) -> bool {
    &&& after.bill_search_query@.len() == 0
    &&& after.bill_search_results@.len() == 0
    &&& after.pending_effects@ =~= if before.has_database {
        before.pending_effects@.push(AppEffect::RefreshBillSearch)
    } else {
        before.pending_effects@
    }
    &&& after == (App {
        bill_search_query: after.bill_search_query,
        bill_search_index: 0,
        bill_search_results: after.bill_search_results,
        pending_effects: after.pending_effects,
        focus_return: before.focus,
        focus: Focus::BillSearch,
        ..before
    })
}

/// `after` is `before` once reprinting the selected search result was asked for (see `reprint_selected_historical_bill`).
pub open spec fn historical_bill_reprinted<M>(before: App<M>, after: App<M>) -> bool {
    &&& before.bill_search_index >= before.bill_search_results@.len() ==> after == before
    &&& before.bill_search_index < before.bill_search_results@.len() ==> {
        let id = before.bill_search_results@[before.bill_search_index as int].id;
        if before.has_database {
            after.pending_effects@ =~= before.pending_effects@.push(
                AppEffect::ReprintHistoricalBill { bill_id: id },
            ) && after == (App { pending_effects: after.pending_effects, ..before })
        } else {
            after.notes() =~= before.notes().push(
                "Could not load details for Bill #"@ + decimal_seq(id as nat) + "."@,
            ) && after == (App { notifications: after.notifications, ..before })
        }
    }
}

/// `after` is `before` once the bill search was run again (see `update_bill_search`).
pub open spec fn bill_search_updated<M>(before: App<M>, after: App<M>) -> bool {
    &&& after.bill_search_results@.len() == 0
    &&& after.pending_effects@ =~= if before.has_database {
        before.pending_effects@.push(AppEffect::RefreshBillSearch)
    } else {
        before.pending_effects@
    }
    &&& after == (App {
        bill_search_results: after.bill_search_results,
        bill_search_index: 0,
        pending_effects: after.pending_effects,
        ..before
    })
}

/// `after` is `before` once the customer profile was looked up for the typed mobile (see `update_customer_crm`).
pub open spec fn customer_looked_up<M>(before: App<M>, after: App<M>) -> bool {
    &&& ({
        let phone = trim_seq(before.mobile_buffer@);
        after.pending_effects@ =~= if encode_utf8(phone).len() >= 4 {
            if before.has_database {
                before.pending_effects@.push(
                    AppEffect::RefreshCustomerProfile { phone: after.pending_effects@.last()->phone },
                )
            } else {
                before.pending_effects@
            }
        } else {
            before.pending_effects@.push(AppEffect::ClearCustomerProfile)
        }
    })
    &&& encode_utf8(trim_seq(before.mobile_buffer@)).len() >= 4 && before.has_database
        ==> after.pending_effects@.last()->phone@ =~= trim_seq(before.mobile_buffer@)
    &&& after == (App { pending_effects: after.pending_effects, ..before })
}

impl<M> App<M> {
    /// Opens the bill search with an empty query; with a database the caller
    /// fills the results.
    pub fn open_bill_search(&mut self)
        ensures
            bill_search_opened(*old(self), *final(self)),
    {
        self.bill_search_query = String::new();
        self.bill_search_index = 0;
        self.bill_search_results = Vec::new();
        if self.has_database {
            self.queue_effect(AppEffect::RefreshBillSearch);
        }
        self.focus_return = self.focus;
        self.focus = Focus::BillSearch;
    }

    /// Runs the bill search again for the current query; with a database the
    /// caller fills the results.
    pub fn update_bill_search(&mut self)
        ensures
            bill_search_updated(*old(self), *final(self)),
    {
        self.bill_search_results = Vec::new();
        if self.has_database {
            self.queue_effect(AppEffect::RefreshBillSearch);
        }
        self.bill_search_index = 0;
    }

    /// Reprints the selected bill-search result: with a database the caller
    /// loads and prints it; without one its details cannot be loaded.
    pub fn reprint_selected_historical_bill(&mut self)
        ensures
            historical_bill_reprinted(*old(self), *final(self)),
    {
        let i = self.bill_search_index;
        if i >= self.bill_search_results.len() {
            return;
        }
        let id = self.bill_search_results[i].id;
        if self.has_database {
            self.queue_effect(AppEffect::ReprintHistoricalBill { bill_id: id });
        } else {
            let d = decimal(id as u64);
            self.notify(msg3("Could not load details for Bill #", d.as_str(), "."));
        }
    }

    /// Looks up the customer profile for the mobile being typed once it has
    /// at least four bytes (with a database), and forgets it while shorter.
    pub fn update_customer_crm(&mut self)
        ensures
            customer_looked_up(*old(self), *final(self)),
    {
        let phone = trim(self.mobile_buffer.as_str());
        if crate::text::utf8_len_at_least(phone.as_str(), 4) {
            if self.has_database {
                self.queue_effect(AppEffect::RefreshCustomerProfile { phone });
            }
        } else {
            self.queue_effect(AppEffect::ClearCustomerProfile);
        }
    }
}

} // verus!
