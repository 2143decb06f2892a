//! Laws on who is answered, on the plain answers, and on names that are spelled in several ways.

use vstd::prelude::*;
use crate::bot;
use crate::commons;
use crate::config::Config;
use crate::conversation;
use crate::conversation::{ActionView, Event, KeepView, Situation, Stage};
use crate::escaping;
use crate::laws::dialogue;
use crate::laws::lists;
use crate::laws::texts;
use crate::loading;
use crate::loading::LoadKey;
use crate::models;
use crate::models::FileHit;
use crate::parser;
use crate::settings;
use crate::telegram::Update;
use crate::text;

verus! {

// Who is answered.

/// The preferences that count are those of the sender of a message, or of its chat where it has no
/// sender; of the user who pressed a button; and of the user who typed a query. The answer goes to
/// the chat it came from.
pub proof fn law_who_is_answered(c: Situation, u: Update, config: Config)
    requires
        config.telegram_bot_token is Some,
    ensures
        ({
            let d = conversation::begin_update(c, u, config).0;
            &&& u.message is Some ==> d.chat_id == (u.message->0).chat.id
            &&& u.message is Some && (u.message->0).from is Some ==> d.user_id == (
            (u.message->0).from->0).id
            &&& u.message is Some && (u.message->0).from is None ==> d.user_id == (
            u.message->0).chat.id
            &&& u.message is None && u.callback_query is Some && (u.callback_query->0).message
                is Some ==> d.user_id == (u.callback_query->0).from.id && d.chat_id == ((
            u.callback_query->0).message->0).chat.id && d.message_id == ((
            u.callback_query->0).message->0).message_id
            &&& u.message is None && u.callback_query is None && u.inline_query is Some ==> d.user_id
                == (u.inline_query->0).from.id
        }),
{
}

/// A button of which no message is known cannot be answered.
pub proof fn law_button_without_message(c: Situation, u: Update, config: Config)
    requires
        config.telegram_bot_token is Some,
        u.message is None,
        u.callback_query is Some,
        (u.callback_query->0).message is None,
    ensures
        conversation::begin_update(c, u, config).1 == (ActionView::Fail {
            reason: "callback query has no message"@,
        }),
{
}

/// A button is answered before anything else, its chat is told that something comes, and only with
/// the preferences of its user is it looked at; that the first two fail does not matter.
pub proof fn law_button_start(c: Situation, u: Update, config: Config, reason: String)
    ensures
        ({
            let typing = ActionView::ShowTyping { chat_id: c.chat_id };
            let load = ActionView::LoadPreferences { user_id: c.user_id };
            &&& c.stage == Stage::CallbackAnswer ==> conversation::next(c, u, config, Event::Done).1
                == typing && conversation::next(c, u, config, Event::Failed(reason)).1 == typing
            &&& c.stage == Stage::CallbackTyping ==> conversation::next(c, u, config, Event::Done).1
                == load && conversation::next(c, u, config, Event::Failed(reason)).1 == load
        }),
{
}

// Plain answers.

/// Whoever asks for help gets it, with their favourites; whoever says nothing gets it too; and
/// whoever asks for the settings gets them, with the menu.
pub proof fn law_plain_answers(c: Situation, u: Update, config: Config, p: models::Preferences)
    requires
        c.stage == Stage::MessageTyping,
        u.message is Some,
        (u.message->0).location is None,
        (u.message->0).text is Some,
        !settings::edits_preferences(((u.message->0).text->0)@),
    ensures
        ({
            let intent = parser::intent_of(((u.message->0).text->0)@);
            let (d, first) = conversation::next(c, u, config, Event::Done);
            let second = conversation::next(d, u, config, Event::Loaded(p)).1;
            &&& intent == models::IntentView::Help ==> first == (ActionView::LoadPreferences {
                user_id: c.user_id,
            }) && dialogue::says(
                second,
                c.chat_id,
                settings::help(config.github_url@, p@.favorite_categories),
            )
            &&& intent == models::IntentView::Empty ==> dialogue::says(
                first,
                c.chat_id,
                settings::help(config.github_url@, seq![]),
            )
            &&& intent == models::IntentView::Preferences ==> first == (
            ActionView::LoadPreferences { user_id: c.user_id }) && second is Send
                && second->Send_chat_id == c.chat_id && second->Send_message_id is None
                && second->Send_keep == KeepView::Nothing && second->Send_reply.text
                == settings::preferences_text(p@, config.stateless_mode)
                && second->Send_reply.rows == Some(settings::main_menu(p@))
        }),
{
    reveal(conversation::intended);
    reveal(conversation::message_loaded);
}

/// Behind the answer to a message comes the button of the update, where it has one; behind the
/// answer to a place, or to a command, nothing comes.
pub proof fn law_behind_answers(c: Situation, u: Update, config: Config)
    ensures
        ({
            let action = conversation::next(c, u, config, Event::Done).1;
            &&& c.stage == Stage::LastReply ==> action == ActionView::Finish
            &&& c.stage == Stage::MessageReply && u.callback_query is None && u.inline_query is None
                ==> action == ActionView::Finish
            &&& c.stage == Stage::MessageReply && u.callback_query is Some && (
            u.callback_query->0).message is Some ==> action == (ActionView::AnswerCallback {
                id: (u.callback_query->0).id@,
            })
            &&& c.stage == Stage::CallbackReply && u.inline_query is None ==> action
                == ActionView::Finish
            &&& c.stage == Stage::InlineAnswer ==> action == ActionView::Finish
        }),
{
}

// Spellings.

/// Users are the same whose names differ in case, in space around them, and in underscores for
/// blanks.
pub proof fn law_user_keys(s: Seq<char>)
    ensures
        commons::user_key(s) == text::lower_text(lists::spaced(text::trimmed(s))),
        commons::user_name(s) == lists::spaced(text::trimmed(s)),
{
    reveal_strlit(" ");
    assert(" "@ =~= seq![' ']);
    texts::law_replaced_character(text::trimmed(s), '_', ' ');
    assert(commons::user_name(s) =~= lists::spaced(text::trimmed(s)));
}

/// A media type tells a sound in any case of its letters.
pub proof fn law_media_types(f: FileHit)
    requires
        f.media_type is Some,
    ensures
        text::lowered((f.media_type->0)@) == "audio"@ ==> f.audio(),
        text::lowered((f.media_type->0)@) != "audio"@ && f.mime is None ==> !f.audio(),
{
    reveal_strlit("AUDIO");
    reveal_strlit("audio");
    assert(text::lowered("AUDIO"@) =~= "audio"@);
}

/// A file without a title cannot be found by it again, and one without a page not by that.
pub proof fn law_files_remembered(f: FileHit)
    ensures
        loading::memorable(LoadKey::Title, f) <==> text::trimmed(f.title@).len() > 0,
        loading::memorable(LoadKey::PageId, f) <==> f.page_id > 0,
{
}

/// A query that is not percent-encoded text is taken as it is.
pub proof fn law_raw_query(w: Seq<char>)
    requires
        !w.contains('&'),
    ensures
        escaping::percent_decoded(w) is None ==> bot::tested_query(seq!['q', '='] + w) == w,
        escaping::percent_decoded(w) is Some ==> bot::tested_query(seq!['q', '='] + w)
            == escaping::percent_decoded(w)->0,
{
    reveal_strlit("q");
    assert("q"@ =~= seq!['q']);
    let s = seq!['q', '='] + w;
    assert(s =~= seq!['q'] + seq!['='] + w);
    assert(!s.contains('&')) by {
        if s.contains('&') {
            let i = choose|i: int| 0 <= i < s.len() && s[i] == '&';
            assert(i >= 2);
            assert(w[i - 2] == '&');
        }
    }
    crate::laws::updates::lemma_one_part(s, '&');
    texts::law_cut_first(seq!['q'], '=', w);
    let p = text::parts(s, '&');
    assert(p[0] == s);
    assert(bot::parameter_q(p) == Some(w));
}

} // verus!
