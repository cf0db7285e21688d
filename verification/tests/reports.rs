use mmtk_openjdk::address::{Address, ObjectReference};
use mmtk_openjdk::klass::ReferenceType;
use mmtk_openjdk::object_scanning::{ReferenceReport, ScanAction};
use mmtk_openjdk::reports::ReportBudgets;
use mmtk_openjdk::slots::OpenJDKSlot;

fn report() -> ReferenceReport<true> {
    ReferenceReport {
        reference: ObjectReference(Address(0x1000)),
        reference_type: ReferenceType::Weak,
        slot: OpenJDKSlot { addr: Address(0x1010) },
    }
}

#[test]
fn each_kind_of_report_is_made_sixty_four_times() {
    let mut budgets = ReportBudgets::usual();
    let mut made = [0, 0, 0];
    for _ in 0..100 {
        let actions = [
            ScanAction::ReportDiscovered(report()),
            ScanAction::ReportRewritten(report()),
            ScanAction::ReportPreserved(report()),
        ];
        for (kind, action) in actions.iter().enumerate() {
            if budgets.take(action) {
                made[kind] += 1;
            }
        }
    }
    assert_eq!(made, [64, 64, 64]);
    assert_eq!(budgets.discovered.remaining, -36);
    assert_eq!(budgets.rewritten.remaining, -36);
    assert_eq!(budgets.preserved.remaining, -36);
}

#[test]
fn one_kind_of_report_leaves_the_other_budgets() {
    let mut budgets = ReportBudgets::usual();
    for _ in 0..70 {
        budgets.take(&ScanAction::ReportRewritten(report()));
    }
    assert!(!budgets.take(&ScanAction::ReportRewritten(report())));
    assert!(budgets.take(&ScanAction::ReportDiscovered(report())));
    assert!(budgets.take(&ScanAction::ReportPreserved(report())));
    assert_eq!(budgets.discovered.remaining, 63);
    assert_eq!(budgets.rewritten.remaining, -7);
    assert_eq!(budgets.preserved.remaining, 63);
}

#[test]
fn other_steps_are_no_reports() {
    let mut budgets = ReportBudgets::usual();
    let object = ObjectReference(Address(0x1000));
    let actions = [
        ScanAction::VisitSlot(OpenJDKSlot::<false> { addr: Address(0x1010) }),
        ScanAction::AddWeakCandidate(object),
        ScanAction::AddSoftCandidate(object),
        ScanAction::AddPhantomCandidate(object),
        ScanAction::ScanByVm(object),
    ];
    for action in actions {
        assert!(!budgets.take(&action));
    }
    assert_eq!(budgets, ReportBudgets::usual());
}
