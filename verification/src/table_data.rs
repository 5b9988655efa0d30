//! The table-facing transaction data of one scope: the raw transaction rows
//! plus the per-row balance and change columns that the host's table widgets
//! read, each column prefixed with its header cell.

use vstd::prelude::*;

verus! {

/// One scope's transactions, balances, changes and row ids, as the ledger
/// layer supplies them.
pub struct TransactionData {
    pub all_tx: Vec<Vec<String>>,
    pub all_balance: Vec<Vec<String>>,
    pub all_changes: Vec<Vec<String>>,
    pub all_id_num: Vec<String>,
}

impl TransactionData {
    /// Bundles one scope's ledger query results.
    pub fn new(
        all_tx: Vec<Vec<String>>,
        all_balance: Vec<Vec<String>>,
        all_changes: Vec<Vec<String>>,
        all_id_num: Vec<String>,
    ) -> (r: TransactionData)
        ensures
            r.all_tx == all_tx,
            r.all_balance == all_balance,
            r.all_changes == all_changes,
            r.all_id_num == all_id_num,
    {
        TransactionData { all_tx, all_balance, all_changes, all_id_num }
    }

    /// The transaction rows, copied for the table widget.
    pub fn get_txs(&self) -> (r: Vec<Vec<String>>)
        ensures
            r@.len() == self.all_tx@.len(),
            forall|i: int| 0 <= i < r@.len() ==> (#[trigger] r@[i])@ == self.all_tx@[i]@,
    {
        let mut table_data: Vec<Vec<String>> = Vec::new();
        let n = self.all_tx.len();
        let mut i: usize = 0;
        while i < n
            invariant
                0 <= i <= n,
                n == self.all_tx@.len(),
                table_data@.len() == i,
                forall|j: int|
                    0 <= j < i ==> (#[trigger] table_data@[j])@ == self.all_tx@[j]@,
            decreases n - i,
        {
            let row = self.all_tx[i].clone();
            assert(row@ =~= self.all_tx@[i as int]@);
            table_data.push(row);
            i = i + 1;
        }
        table_data
    }

    /// The balance column of one row: the header cell, then every method's
    /// balance text.
    pub fn get_balance(&self, index: usize) -> (r: Vec<String>)
        requires
            index < self.all_balance@.len(),
        ensures
            r@.len() == 1 + self.all_balance@[index as int]@.len(),
            r@[0]@ == "Balance"@,
            forall|j: int|
                0 <= j < self.all_balance@[index as int]@.len() ==> (#[trigger] r@[j + 1])@
                    == self.all_balance@[index as int]@[j]@,
    {
        let mut balance_data: Vec<String> = Vec::new();
        balance_data.push(String::from_str("Balance"));
        let row = &self.all_balance[index];
        let n = row.len();
        let mut j: usize = 0;
        while j < n
            invariant
                0 <= j <= n,
                n == row@.len(),
                row == &self.all_balance@[index as int],
                balance_data@.len() == 1 + j,
                balance_data@[0]@ == "Balance"@,
                forall|q: int|
                    0 <= q < j ==> (#[trigger] balance_data@[q + 1])@ == row@[q]@,
            decreases n - j,
        {
            balance_data.push(row[j].clone());
            j = j + 1;
        }
        balance_data
    }

    /// The changes column of one row: the header cell, then every method's
    /// change text.
    pub fn get_changes(&self, index: usize) -> (r: Vec<String>)
        requires
            index < self.all_changes@.len(),
        ensures
            r@.len() == 1 + self.all_changes@[index as int]@.len(),
            r@[0]@ == "Changes"@,
            forall|j: int|
                0 <= j < self.all_changes@[index as int]@.len() ==> (#[trigger] r@[j + 1])@
                    == self.all_changes@[index as int]@[j]@,
    {
        let mut changes_data: Vec<String> = Vec::new();
        changes_data.push(String::from_str("Changes"));
        let row = &self.all_changes[index];
        let n = row.len();
        let mut j: usize = 0;
        while j < n
            invariant
                0 <= j <= n,
                n == row@.len(),
                row == &self.all_changes@[index as int],
                changes_data@.len() == 1 + j,
                changes_data@[0]@ == "Changes"@,
                forall|q: int|
                    0 <= q < j ==> (#[trigger] changes_data@[q + 1])@ == row@[q]@,
            decreases n - j,
        {
            changes_data.push(row[j].clone());
            j = j + 1;
        }
        changes_data
    }
}

} // verus!
