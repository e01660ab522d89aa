//! The form for a new costing tab: its values, their validation, and the
//! step that, for a message of the form, changes the form and gives the
//! commands for the application to carry out.

use vstd::prelude::*;
use std::rc::Rc;
use crate::costing::tab::{Tab, TabID};
use crate::currency::Currency;
use crate::gui::reducer::{copy_currency, ChangeLastSelectedCurrency, CosterAction};
use crate::gui::state::AppRoute;
use crate::gui::validation::{Validatable, ValidationError, ValidationErrors, ValidationMessage};
use crate::text::{trim, trimmed};

verus! {

/// The fields of the form.
#[derive(Debug, Clone, Copy, PartialEq, Eq, Hash)]
pub enum FormFields {
    Name,
    WorkingCurrency,
}

/// The values of the form.
#[derive(Debug)]
pub struct FormData {
    /// The name of the tab.
    pub name: String,
    /// The working currency of the tab, once one is selected.
    pub working_currency: Option<Currency>,
}

/// The message shown for an error in the field `key`.
pub open spec fn form_error_message(key: FormFields) -> Seq<char> {
    match key {
        FormFields::Name => "Name cannot be empty"@,
        FormFields::WorkingCurrency => "Please select a working currency"@,
    }
}

/// The fields of `data` in error, in order: the name when it is only white
/// space, and the working currency when none is selected.
pub open spec fn form_error_keys(data: FormData) -> Seq<FormFields> {
    (if trimmed(data.name@).len() == 0 {
        seq![FormFields::Name]
    } else {
        Seq::empty()
    }) + (if data.working_currency is None {
        seq![FormFields::WorkingCurrency]
    } else {
        Seq::empty()
    })
}

/// `errors` are the errors of `data`: one for each field in error, in
/// order, with its message.
pub open spec fn are_form_errors(data: FormData, errors: Seq<ValidationError<FormFields>>) -> bool {
    &&& errors.len() == form_error_keys(data).len()
    &&& forall|i: int| 0 <= i < errors.len() ==> (#[trigger] errors[i]).key == form_error_keys(data)[i]
        && (errors[i].message matches ValidationMessage::Text(t) && t@ == form_error_message(errors[i].key))
}

/// `tab` is a new tab made from `data`: it has the name and the working
/// currency of the form, and no users and no expenses yet.
pub open spec fn is_new_tab(data: FormData, tab: Tab) -> bool {
    &&& tab.wf()
    &&& tab.name@ == data.name@
    &&& data.working_currency matches Some(c) && tab.working_currency == c.code
    &&& tab.users_seq().len() == 0
    &&& tab.expenses@.len() == 0
}

/// Calls `uuid::Uuid::new_v4`, a random id; nothing is stated of which.
#[verifier::external_body]
fn new_tab_id() -> (id: TabID) {
    uuid::Uuid::new_v4()
}

impl Default for FormData {
    /// An empty name, and no working currency.
    fn default() -> (r: Self)
        ensures
            r.name@ == ""@,
            r.working_currency is None,
    {
        proof {
            reveal_strlit("");
        }
        FormData { name: String::new(), working_currency: None }
    }
}

impl Validatable<FormFields> for FormData {
    open spec fn validates_to(&self, r: Result<(), ValidationErrors<FormFields>>) -> bool {
        match r {
            Ok(()) => form_error_keys(*self).len() == 0,
            Err(e) => form_error_keys(*self).len() > 0 && are_form_errors(*self, e.errors@),
        }
    }

    /// The name must hold more than white space, and a working currency
    /// must be selected.
    fn validate(&self) -> (r: Result<(), ValidationErrors<FormFields>>) {
        let mut errors: Vec<ValidationError<FormFields>> = Vec::new();
        let name = trim(self.name.as_str());
        let name_empty = name.as_str().is_empty();
        if name_empty {
            let e = ValidationError::new(FormFields::Name).message("Name cannot be empty");
            errors.push(e);
        }
        if self.working_currency.is_none() {
            let e = ValidationError::new(FormFields::WorkingCurrency).message("Please select a working currency");
            errors.push(e);
        }
        proof {
            reveal_strlit("Name cannot be empty");
            reveal_strlit("Please select a working currency");
            let keys = form_error_keys(*self);
            if name_empty {
                assert(keys[0] == FormFields::Name);
            }
            if self.working_currency is None {
                assert(keys[keys.len() - 1] == FormFields::WorkingCurrency);
            }
        }
        if errors.len() == 0 {
            Ok(())
        } else {
            Err(ValidationErrors::new(errors))
        }
    }
}

impl FormData {
    /// A new tab from the form, with a random id; the errors of the form
    /// where it is not valid.
    pub fn create_tab(&self) -> (r: Result<Tab, ValidationErrors<FormFields>>)
        ensures
            r is Ok <==> form_error_keys(*self).len() == 0,
            r matches Ok(tab) ==> is_new_tab(*self, tab),
            r matches Err(e) ==> are_form_errors(*self, e.errors@),
    {
        match self.validate() {
            Err(e) => Err(e),
            Ok(()) => match &self.working_currency {
                Some(currency) => {
                    let id = new_tab_id();
                    Ok(Tab::new(id, self.name.as_str(), currency.code, Vec::new(), Vec::new()))
                },
                None => {
                    proof {
                        assert(form_error_keys(*self).len() > 0);
                    }
                    Err(ValidationErrors::empty())
                },
            },
        }
    }
}

/// A message to the form.
pub enum NewTabMsg {
    /// The name field changed.
    UpdateName(String),
    /// A working currency was selected.
    UpdateWorkingCurrency(Currency),
    /// The fields report whether they are all valid.
    UpdateFormIsValid(bool),
    /// The user asks to create the tab.
    Create,
    /// The user leaves the form.
    Cancel,
    /// The language of the interface changed.
    LanguageChanged,
}

/// What the application is to do after a step of the form.
pub enum NewTabCommand {
    /// Every field shows its validation.
    ValidateAllFields,
    /// The action goes to the store.
    Dispatch(CosterAction),
    /// The application changes to the route.
    ChangeRoute(AppRoute),
}

/// The form for a new tab.
pub struct NewTabForm {
    /// The values of the form.
    pub form_data: FormData,
    /// Whether the form is shown as valid.
    pub form_is_valid: bool,
}

/// The commands of a `Create` step on the form values `data`: where they
/// are valid, the fields show their validation, the working currency
/// becomes the last selected one (written to the database), the new tab
/// goes to the store (written to the database), and the application goes
/// to the index; where they are not, the fields show their validation.
pub open spec fn create_commands(data: FormData, commands: Seq<NewTabCommand>) -> bool {
    if form_error_keys(data).len() == 0 {
        &&& commands.len() == 4
        &&& commands[0] is ValidateAllFields
        &&& commands[1] matches NewTabCommand::Dispatch(CosterAction::ChangeLastSelectedCurrency(c))
            && c.last_selected_currency == data.working_currency && c.write_to_database
        &&& commands[2] matches NewTabCommand::Dispatch(CosterAction::CreateTab { tab, write_to_database })
            && write_to_database && is_new_tab(data, *tab)
        &&& commands[3] == NewTabCommand::ChangeRoute(AppRoute::Index)
    } else {
        &&& commands.len() == 1
        &&& commands[0] is ValidateAllFields
    }
}

impl NewTabForm {
    /// The form, empty but for the working currency, which is the one
    /// selected last; shown as valid until the fields report.
    pub fn new(last_selected_currency: Option<Currency>) -> (f: NewTabForm)
        ensures
            f.form_data.name@ == ""@,
            f.form_data.working_currency == last_selected_currency,
            f.form_is_valid,
    {
        let mut form_data = FormData::default();
        form_data.working_currency = last_selected_currency;
        NewTabForm { form_data, form_is_valid: true }
    }

    /// One step of the form: the form changes by `msg`, and the commands
    /// are what the application is to do, in order; the first part of the
    /// result is whether to show the form again (always).
    pub fn update(&mut self, msg: NewTabMsg) -> (r: (bool, Vec<NewTabCommand>))
        ensures
            r.0,
            match msg {
                NewTabMsg::UpdateName(name) => {
                    &&& final(self).form_data.name@ == trimmed(name@)
                    &&& final(self).form_data.working_currency == old(self).form_data.working_currency
                    &&& final(self).form_is_valid == old(self).form_is_valid
                    &&& r.1@.len() == 0
                },
                NewTabMsg::UpdateWorkingCurrency(currency) => {
                    &&& final(self).form_data.name == old(self).form_data.name
                    &&& final(self).form_data.working_currency == Some(currency)
                    &&& final(self).form_is_valid == old(self).form_is_valid
                    &&& r.1@.len() == 0
                },
                NewTabMsg::UpdateFormIsValid(valid) => {
                    &&& final(self).form_data == old(self).form_data
                    &&& final(self).form_is_valid == valid
                    &&& r.1@.len() == 0
                },
                NewTabMsg::Create => {
                    &&& final(self).form_data == old(self).form_data
                    &&& final(self).form_is_valid == (form_error_keys(old(self).form_data).len() == 0)
                    &&& create_commands(old(self).form_data, r.1@)
                },
                NewTabMsg::Cancel => {
                    &&& final(self).form_data == old(self).form_data
                    &&& final(self).form_is_valid == old(self).form_is_valid
                    &&& r.1@ == seq![NewTabCommand::ChangeRoute(AppRoute::Index)]
                },
                NewTabMsg::LanguageChanged => {
                    &&& final(self).form_data == old(self).form_data
                    &&& final(self).form_is_valid == old(self).form_is_valid
                    &&& r.1@.len() == 0
                },
            },
    {
        let mut commands: Vec<NewTabCommand> = Vec::new();
        match msg {
            NewTabMsg::UpdateName(name) => {
                self.form_data.name = trim(name.as_str());
            },
            NewTabMsg::UpdateWorkingCurrency(currency) => {
                self.form_data.working_currency = Some(currency);
            },
            NewTabMsg::UpdateFormIsValid(valid) => {
                self.form_is_valid = valid;
            },
            NewTabMsg::Create => {
                commands.push(NewTabCommand::ValidateAllFields);
                let valid = self.form_data.validate().is_ok();
                self.form_is_valid = valid;
                if valid {
                    let change = ChangeLastSelectedCurrency {
                        last_selected_currency: copy_currency(&self.form_data.working_currency),
                        write_to_database: true,
                    };
                    commands.push(NewTabCommand::Dispatch(CosterAction::ChangeLastSelectedCurrency(change)));
                    match self.form_data.create_tab() {
                        Ok(tab) => {
                            commands.push(NewTabCommand::Dispatch(CosterAction::CreateTab { tab: Rc::new(tab), write_to_database: true }));
                            commands.push(NewTabCommand::ChangeRoute(AppRoute::Index));
                        },
                        Err(_) => {
                            return (false, commands);
                        },
                    }
                }
            },
            NewTabMsg::Cancel => {
                commands.push(NewTabCommand::ChangeRoute(AppRoute::Index));
            },
            NewTabMsg::LanguageChanged => {},
        }
        (true, commands)
    }
}

} // verus!
