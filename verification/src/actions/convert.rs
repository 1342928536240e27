//! Every action converts into the catalog's [`Action`].
use crate::actions::{
    Action, Append, AppendCharToSearch, AppendNewline, Composed, CopySelection, Custom, DeleteChar,
    DeleteLine, DeleteSelection, FindNext, FindPrevious, InsertChar, InsertNewline, LineBreak,
    MoveBackward, MoveDown, MoveForward, MoveToEnd, MoveToFirst, MoveToFirstLine, MoveToLastLine,
    MoveToStart, MoveUp, MoveWordBackward, MoveWordForwardEnd, MoveWordForwardStart, Paste, Redo,
    RemoveChar, RemoveCharFromSearch, SelectBetween, StartSearch, StopSearch, SwitchMode,
    TriggerSearch, Undo,
};
use vstd::prelude::*;
use vstd::std_specs::convert::FromSpecImpl;

verus! {

impl<I> From<SwitchMode> for Action<I> {
    fn from(action: SwitchMode) -> (wrapped: Action<I>) {
        Action::SwitchMode(action)
    }
}

impl<I> FromSpecImpl<SwitchMode> for Action<I> {
    open spec fn obeys_from_spec() -> bool {
        true
    }

    open spec fn from_spec(action: SwitchMode) -> Action<I> {
        Action::SwitchMode(action)
    }
}

impl<I> From<Append> for Action<I> {
    fn from(action: Append) -> (wrapped: Action<I>) {
        Action::Append(action)
    }
}

impl<I> FromSpecImpl<Append> for Action<I> {
    open spec fn obeys_from_spec() -> bool {
        true
    }

    open spec fn from_spec(action: Append) -> Action<I> {
        Action::Append(action)
    }
}

impl<I> From<MoveForward> for Action<I> {
    fn from(action: MoveForward) -> (wrapped: Action<I>) {
        Action::MoveForward(action)
    }
}

impl<I> FromSpecImpl<MoveForward> for Action<I> {
    open spec fn obeys_from_spec() -> bool {
        true
    }

    open spec fn from_spec(action: MoveForward) -> Action<I> {
        Action::MoveForward(action)
    }
}

impl<I> From<MoveBackward> for Action<I> {
    fn from(action: MoveBackward) -> (wrapped: Action<I>) {
        Action::MoveBackward(action)
    }
}

impl<I> FromSpecImpl<MoveBackward> for Action<I> {
    open spec fn obeys_from_spec() -> bool {
        true
    }

    open spec fn from_spec(action: MoveBackward) -> Action<I> {
        Action::MoveBackward(action)
    }
}

impl<I> From<MoveUp> for Action<I> {
    fn from(action: MoveUp) -> (wrapped: Action<I>) {
        Action::MoveUp(action)
    }
}

impl<I> FromSpecImpl<MoveUp> for Action<I> {
    open spec fn obeys_from_spec() -> bool {
        true
    }

    open spec fn from_spec(action: MoveUp) -> Action<I> {
        Action::MoveUp(action)
    }
}

impl<I> From<MoveDown> for Action<I> {
    fn from(action: MoveDown) -> (wrapped: Action<I>) {
        Action::MoveDown(action)
    }
}

impl<I> FromSpecImpl<MoveDown> for Action<I> {
    open spec fn obeys_from_spec() -> bool {
        true
    }

    open spec fn from_spec(action: MoveDown) -> Action<I> {
        Action::MoveDown(action)
    }
}

impl<I> From<MoveWordForwardStart> for Action<I> {
    fn from(action: MoveWordForwardStart) -> (wrapped: Action<I>) {
        Action::MoveWordForwardStart(action)
    }
}

impl<I> FromSpecImpl<MoveWordForwardStart> for Action<I> {
    open spec fn obeys_from_spec() -> bool {
        true
    }

    open spec fn from_spec(action: MoveWordForwardStart) -> Action<I> {
        Action::MoveWordForwardStart(action)
    }
}

impl<I> From<MoveWordForwardEnd> for Action<I> {
    fn from(action: MoveWordForwardEnd) -> (wrapped: Action<I>) {
        Action::MoveWordForwardEnd(action)
    }
}

impl<I> FromSpecImpl<MoveWordForwardEnd> for Action<I> {
    open spec fn obeys_from_spec() -> bool {
        true
    }

    open spec fn from_spec(action: MoveWordForwardEnd) -> Action<I> {
        Action::MoveWordForwardEnd(action)
    }
}

impl<I> From<MoveWordBackward> for Action<I> {
    fn from(action: MoveWordBackward) -> (wrapped: Action<I>) {
        Action::MoveWordBackward(action)
    }
}

impl<I> FromSpecImpl<MoveWordBackward> for Action<I> {
    open spec fn obeys_from_spec() -> bool {
        true
    }

    open spec fn from_spec(action: MoveWordBackward) -> Action<I> {
        Action::MoveWordBackward(action)
    }
}

impl<I> From<MoveToStart> for Action<I> {
    fn from(action: MoveToStart) -> (wrapped: Action<I>) {
        Action::MoveToStart(action)
    }
}

impl<I> FromSpecImpl<MoveToStart> for Action<I> {
    open spec fn obeys_from_spec() -> bool {
        true
    }

    open spec fn from_spec(action: MoveToStart) -> Action<I> {
        Action::MoveToStart(action)
    }
}

impl<I> From<MoveToFirst> for Action<I> {
    fn from(action: MoveToFirst) -> (wrapped: Action<I>) {
        Action::MoveToFirst(action)
    }
}

impl<I> FromSpecImpl<MoveToFirst> for Action<I> {
    open spec fn obeys_from_spec() -> bool {
        true
    }

    open spec fn from_spec(action: MoveToFirst) -> Action<I> {
        Action::MoveToFirst(action)
    }
}

impl<I> From<MoveToEnd> for Action<I> {
    fn from(action: MoveToEnd) -> (wrapped: Action<I>) {
        Action::MoveToEnd(action)
    }
}

impl<I> FromSpecImpl<MoveToEnd> for Action<I> {
    open spec fn obeys_from_spec() -> bool {
        true
    }

    open spec fn from_spec(action: MoveToEnd) -> Action<I> {
        Action::MoveToEnd(action)
    }
}

impl<I> From<MoveToFirstLine> for Action<I> {
    fn from(action: MoveToFirstLine) -> (wrapped: Action<I>) {
        Action::MoveToFirstLine(action)
    }
}

impl<I> FromSpecImpl<MoveToFirstLine> for Action<I> {
    open spec fn obeys_from_spec() -> bool {
        true
    }

    open spec fn from_spec(action: MoveToFirstLine) -> Action<I> {
        Action::MoveToFirstLine(action)
    }
}

impl<I> From<MoveToLastLine> for Action<I> {
    fn from(action: MoveToLastLine) -> (wrapped: Action<I>) {
        Action::MoveToLastLine(action)
    }
}

impl<I> FromSpecImpl<MoveToLastLine> for Action<I> {
    open spec fn obeys_from_spec() -> bool {
        true
    }

    open spec fn from_spec(action: MoveToLastLine) -> Action<I> {
        Action::MoveToLastLine(action)
    }
}

impl<I> From<InsertChar> for Action<I> {
    fn from(action: InsertChar) -> (wrapped: Action<I>) {
        Action::InsertChar(action)
    }
}

impl<I> FromSpecImpl<InsertChar> for Action<I> {
    open spec fn obeys_from_spec() -> bool {
        true
    }

    open spec fn from_spec(action: InsertChar) -> Action<I> {
        Action::InsertChar(action)
    }
}

impl<I> From<LineBreak> for Action<I> {
    fn from(action: LineBreak) -> (wrapped: Action<I>) {
        Action::LineBreak(action)
    }
}

impl<I> FromSpecImpl<LineBreak> for Action<I> {
    open spec fn obeys_from_spec() -> bool {
        true
    }

    open spec fn from_spec(action: LineBreak) -> Action<I> {
        Action::LineBreak(action)
    }
}

impl<I> From<AppendNewline> for Action<I> {
    fn from(action: AppendNewline) -> (wrapped: Action<I>) {
        Action::AppendNewline(action)
    }
}

impl<I> FromSpecImpl<AppendNewline> for Action<I> {
    open spec fn obeys_from_spec() -> bool {
        true
    }

    open spec fn from_spec(action: AppendNewline) -> Action<I> {
        Action::AppendNewline(action)
    }
}

impl<I> From<InsertNewline> for Action<I> {
    fn from(action: InsertNewline) -> (wrapped: Action<I>) {
        Action::InsertNewline(action)
    }
}

impl<I> FromSpecImpl<InsertNewline> for Action<I> {
    open spec fn obeys_from_spec() -> bool {
        true
    }

    open spec fn from_spec(action: InsertNewline) -> Action<I> {
        Action::InsertNewline(action)
    }
}

impl<I> From<RemoveChar> for Action<I> {
    fn from(action: RemoveChar) -> (wrapped: Action<I>) {
        Action::RemoveChar(action)
    }
}

impl<I> FromSpecImpl<RemoveChar> for Action<I> {
    open spec fn obeys_from_spec() -> bool {
        true
    }

    open spec fn from_spec(action: RemoveChar) -> Action<I> {
        Action::RemoveChar(action)
    }
}

impl<I> From<DeleteChar> for Action<I> {
    fn from(action: DeleteChar) -> (wrapped: Action<I>) {
        Action::DeleteChar(action)
    }
}

impl<I> FromSpecImpl<DeleteChar> for Action<I> {
    open spec fn obeys_from_spec() -> bool {
        true
    }

    open spec fn from_spec(action: DeleteChar) -> Action<I> {
        Action::DeleteChar(action)
    }
}

impl<I> From<DeleteLine> for Action<I> {
    fn from(action: DeleteLine) -> (wrapped: Action<I>) {
        Action::DeleteLine(action)
    }
}

impl<I> FromSpecImpl<DeleteLine> for Action<I> {
    open spec fn obeys_from_spec() -> bool {
        true
    }

    open spec fn from_spec(action: DeleteLine) -> Action<I> {
        Action::DeleteLine(action)
    }
}

impl<I> From<DeleteSelection> for Action<I> {
    fn from(action: DeleteSelection) -> (wrapped: Action<I>) {
        Action::DeleteSelection(action)
    }
}

impl<I> FromSpecImpl<DeleteSelection> for Action<I> {
    open spec fn obeys_from_spec() -> bool {
        true
    }

    open spec fn from_spec(action: DeleteSelection) -> Action<I> {
        Action::DeleteSelection(action)
    }
}

impl<I> From<SelectBetween> for Action<I> {
    fn from(action: SelectBetween) -> (wrapped: Action<I>) {
        Action::SelectBetween(action)
    }
}

impl<I> FromSpecImpl<SelectBetween> for Action<I> {
    open spec fn obeys_from_spec() -> bool {
        true
    }

    open spec fn from_spec(action: SelectBetween) -> Action<I> {
        Action::SelectBetween(action)
    }
}

impl<I> From<Undo> for Action<I> {
    fn from(action: Undo) -> (wrapped: Action<I>) {
        Action::Undo(action)
    }
}

impl<I> FromSpecImpl<Undo> for Action<I> {
    open spec fn obeys_from_spec() -> bool {
        true
    }

    open spec fn from_spec(action: Undo) -> Action<I> {
        Action::Undo(action)
    }
}

impl<I> From<Redo> for Action<I> {
    fn from(action: Redo) -> (wrapped: Action<I>) {
        Action::Redo(action)
    }
}

impl<I> FromSpecImpl<Redo> for Action<I> {
    open spec fn obeys_from_spec() -> bool {
        true
    }

    open spec fn from_spec(action: Redo) -> Action<I> {
        Action::Redo(action)
    }
}

impl<I> From<Paste> for Action<I> {
    fn from(action: Paste) -> (wrapped: Action<I>) {
        Action::Paste(action)
    }
}

impl<I> FromSpecImpl<Paste> for Action<I> {
    open spec fn obeys_from_spec() -> bool {
        true
    }

    open spec fn from_spec(action: Paste) -> Action<I> {
        Action::Paste(action)
    }
}

impl<I> From<CopySelection> for Action<I> {
    fn from(action: CopySelection) -> (wrapped: Action<I>) {
        Action::CopySelection(action)
    }
}

impl<I> FromSpecImpl<CopySelection> for Action<I> {
    open spec fn obeys_from_spec() -> bool {
        true
    }

    open spec fn from_spec(action: CopySelection) -> Action<I> {
        Action::CopySelection(action)
    }
}

impl<I> From<StartSearch> for Action<I> {
    fn from(action: StartSearch) -> (wrapped: Action<I>) {
        Action::StartSearch(action)
    }
}

impl<I> FromSpecImpl<StartSearch> for Action<I> {
    open spec fn obeys_from_spec() -> bool {
        true
    }

    open spec fn from_spec(action: StartSearch) -> Action<I> {
        Action::StartSearch(action)
    }
}

impl<I> From<StopSearch> for Action<I> {
    fn from(action: StopSearch) -> (wrapped: Action<I>) {
        Action::StopSearch(action)
    }
}

impl<I> FromSpecImpl<StopSearch> for Action<I> {
    open spec fn obeys_from_spec() -> bool {
        true
    }

    open spec fn from_spec(action: StopSearch) -> Action<I> {
        Action::StopSearch(action)
    }
}

impl<I> From<TriggerSearch> for Action<I> {
    fn from(action: TriggerSearch) -> (wrapped: Action<I>) {
        Action::TriggerSearch(action)
    }
}

impl<I> FromSpecImpl<TriggerSearch> for Action<I> {
    open spec fn obeys_from_spec() -> bool {
        true
    }

    open spec fn from_spec(action: TriggerSearch) -> Action<I> {
        Action::TriggerSearch(action)
    }
}

impl<I> From<FindNext> for Action<I> {
    fn from(action: FindNext) -> (wrapped: Action<I>) {
        Action::FindNext(action)
    }
}

impl<I> FromSpecImpl<FindNext> for Action<I> {
    open spec fn obeys_from_spec() -> bool {
        true
    }

    open spec fn from_spec(action: FindNext) -> Action<I> {
        Action::FindNext(action)
    }
}

impl<I> From<FindPrevious> for Action<I> {
    fn from(action: FindPrevious) -> (wrapped: Action<I>) {
        Action::FindPrevious(action)
    }
}

impl<I> FromSpecImpl<FindPrevious> for Action<I> {
    open spec fn obeys_from_spec() -> bool {
        true
    }

    open spec fn from_spec(action: FindPrevious) -> Action<I> {
        Action::FindPrevious(action)
    }
}

impl<I> From<AppendCharToSearch> for Action<I> {
    fn from(action: AppendCharToSearch) -> (wrapped: Action<I>) {
        Action::AppendCharToSearch(action)
    }
}

impl<I> FromSpecImpl<AppendCharToSearch> for Action<I> {
    open spec fn obeys_from_spec() -> bool {
        true
    }

    open spec fn from_spec(action: AppendCharToSearch) -> Action<I> {
        Action::AppendCharToSearch(action)
    }
}

impl<I> From<RemoveCharFromSearch> for Action<I> {
    fn from(action: RemoveCharFromSearch) -> (wrapped: Action<I>) {
        Action::RemoveCharFromSearch(action)
    }
}

impl<I> FromSpecImpl<RemoveCharFromSearch> for Action<I> {
    open spec fn obeys_from_spec() -> bool {
        true
    }

    open spec fn from_spec(action: RemoveCharFromSearch) -> Action<I> {
        Action::RemoveCharFromSearch(action)
    }
}

impl<I> From<Composed<I>> for Action<I> {
    fn from(action: Composed<I>) -> (wrapped: Action<I>) {
        Action::Composed(action)
    }
}

impl<I> FromSpecImpl<Composed<I>> for Action<I> {
    open spec fn obeys_from_spec() -> bool {
        true
    }

    open spec fn from_spec(action: Composed<I>) -> Action<I> {
        Action::Composed(action)
    }
}

impl<I> From<Custom<I>> for Action<I> {
    fn from(action: Custom<I>) -> (wrapped: Action<I>) {
        Action::Custom(action)
    }
}

impl<I> FromSpecImpl<Custom<I>> for Action<I> {
    open spec fn obeys_from_spec() -> bool {
        true
    }

    open spec fn from_spec(action: Custom<I>) -> Action<I> {
        Action::Custom(action)
    }
}

} // verus!
