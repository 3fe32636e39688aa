//! Decisions of the configuration menu that do not depend on how it is drawn.
use vstd::prelude::*;
use crate::config::{position_of, texts, ConfigView, DeviceConfig};

verus! {

/// Where the main menu leads.
#[derive(Debug, Clone, Copy, PartialEq, Eq, Structural)]
pub enum MainMenuStates {
    /// A parameter was chosen for editing.
    ConfigurationState,
    /// The menu is left and the store saved.
    ExitState,
}

/// The menu views that can have the focus.
#[derive(Debug, Clone, Copy, PartialEq, Eq, Structural)]
pub enum ActiveMenuView {
    MainView,
    ConfigView,
    ExitView,
    UpdateView,
}

pub open spec fn view_for_name(name: Seq<char>) -> ActiveMenuView {
    if name == seq!['c', 'o', 'n', 'f', 'i', 'g', '_', 'm', 'e', 'n', 'u'] {
        ActiveMenuView::ConfigView
    } else if name == seq!['e', 'x', 'i', 't', '_', 'm', 'e', 'n', 'u'] {
        ActiveMenuView::ExitView
    } else if name == seq!['u', 'p', 'd', 'a', 't', 'e', '_', 'm', 'e', 'n', 'u'] {
        ActiveMenuView::UpdateView
    } else {
        ActiveMenuView::MainView
    }
}

impl ActiveMenuView {
    /// The view that a view name stands for; an unknown name means the main view.
    pub fn from(value: &str) -> (r: ActiveMenuView)
        ensures
            r == view_for_name(value@),
    {
        proof {
            reveal_strlit("config_menu");
            reveal_strlit("exit_menu");
            reveal_strlit("update_menu");
        }
        let v = value.to_owned();
        let config = "config_menu".to_owned();
        let exit = "exit_menu".to_owned();
        let update = "update_menu".to_owned();
        assert(config@ =~= seq!['c', 'o', 'n', 'f', 'i', 'g', '_', 'm', 'e', 'n', 'u']);
        assert(exit@ =~= seq!['e', 'x', 'i', 't', '_', 'm', 'e', 'n', 'u']);
        assert(update@ =~= seq!['u', 'p', 'd', 'a', 't', 'e', '_', 'm', 'e', 'n', 'u']);
        if v == config {
            ActiveMenuView::ConfigView
        } else if v == exit {
            ActiveMenuView::ExitView
        } else if v == update {
            ActiveMenuView::UpdateView
        } else {
            ActiveMenuView::MainView
        }
    }
}

/// The descriptions of the store's parameters, in its order.
pub open spec fn descriptions(store: ConfigView) -> Seq<Seq<char>> {
    store.params.map_values(|p: crate::config::ParameterView| p.description)
}

/// The name of the first parameter whose description is the menu item
/// `selected`; `None` for any other item, such as the exit button.
pub fn parameter_for_menu_item(config: &DeviceConfig, selected: &str) -> (r: Option<String>)
    requires
        config@.wf(),
    ensures
        ({
            let i = position_of(descriptions(config@), selected@);
            if i < 0 {
                r is None
            } else {
                r is Some && r->Some_0@ == config@.names[i]
            }
        }),
{
    let names = match config.get_parameters_names() {
        Ok(names) => names,
        Err(_) => {
            assert(descriptions(config@).len() == 0);
            return None;
        },
    };
    let wanted = selected.to_owned();
    let mut i: usize = 0;
    while i < names.len()
        invariant
            config@.wf(),
            texts(names@) == config@.names,
            wanted@ == selected@,
            i <= names@.len(),
            forall|j: int| 0 <= j < i ==> descriptions(config@)[j] != selected@,
        decreases names@.len() - i,
    {
        proof {
            crate::config::lemma_position_of(config@.names, config@.names[i as int], i as int);
        }
        let description = match config.get_parameter_description(names[i].as_str()) {
            Ok(d) => d,
            Err(_) => {
                assert(false);
                return None;
            },
        };
        if description == wanted {
            proof {
                crate::config::lemma_position_of(descriptions(config@), selected@, i as int);
            }
            return Some(names[i].clone());
        }
        i = i + 1;
    }
    None
}

} // verus!
