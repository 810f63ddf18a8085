//! The help pages: eight command categories, each with its aliases, its
//! title and the commands it lists.
use vstd::prelude::*;
use crate::text::{append_chars, chars_eq, chars_of, join, join_chars, string_of, trim, trim_chars};

verus! {

/// How many categories the help has.
pub const CATEGORY_COUNT: usize = 8;

/// The names by which category `i` can be asked for; the first is the one
/// shown in lists.
pub open spec fn aliases_of(i: int) -> Seq<Seq<char>> {
    if i == 0 {
        seq!["moderation"@, "mod"@, "modération"@, "moderation"@]
    } else if i == 1 {
        seq!["utility"@, "util"@, "utilitaires"@, "utilitaire"@]
    } else if i == 2 {
        seq!["server"@, "serveur"@, "structure"@, "backup"@]
    } else if i == 3 {
        seq!["giveaway"@, "giveaways"@, "gw"@, "concours"@]
    } else if i == 4 {
        seq!["poll"@, "polls"@, "sondage"@, "sondages"@]
    } else if i == 5 {
        seq!["ticket"@, "tickets"@]
    } else if i == 6 {
        seq!["tempvc"@, "vocal"@, "vocaux"@, "vc"@]
    } else {
        seq!["bot"@, "invite"@, "owner"@]
    }
}

/// The title of category `i`.
pub open spec fn title_of(i: int) -> Seq<char> {
    if i == 0 {
        "🛡️ Modération"@
    } else if i == 1 {
        "🔧 Utilitaires"@
    } else if i == 2 {
        "🗂️ Structure de serveur"@
    } else if i == 3 {
        "🎉 Giveaways"@
    } else if i == 4 {
        "📊 Sondages"@
    } else if i == 5 {
        "🎫 Tickets"@
    } else if i == 6 {
        "🔊 Salons vocaux temporaires"@
    } else {
        "🤖 Bot"@
    }
}

/// The commands that category `i` lists, one per line.
pub open spec fn commands_of(i: int) -> Seq<char> {
    if i == 0 {
        "`!ban @user [@user2 ...] [raison]` — Bannir (mentions multiples)\n\
                   `!unban <id> [raison]` — Débannir\n\
                   `!kick @user [@user2 ...] [raison]` — Expulser (mentions multiples)\n\
                   `!mute @user [@user2 ...] <durée> [raison]` — Timeout (`10m`, `2h`, `1d`)\n\
                   `!unmute @user [@user2 ...]` — Retirer le timeout\n\
                   `!warn @user [@user2 ...] <raison>` — Avertir (mentions multiples)\n\
                   `!warnings @user` — Voir les avertissements\n\
                   `!clearwarns @user` — Effacer les avertissements\n\
                   `!clear <1-100>` — Supprimer des messages"@
    } else if i == 1 {
        "`!slowmode <secondes>` — Mode lent (`0` pour désactiver)\n\
                   `!lock [#salon]` — Verrouiller un salon\n\
                   `!unlock [#salon]` — Déverrouiller un salon\n\
                   `!userinfo [@user]` — Infos d'un membre\n\
                   `!setmodlog #salon` — Définir le salon des logs de modération"@
    } else if i == 2 {
        "`!sbackup` — Exporter rôles, catégories, salons et permissions en JSON\n\
                   `!srestore` — Recréer une structure depuis un fichier backup.json"@
    } else if i == 3 {
        "`!gcreate <durée> <gagnants> <prix>` — Créer un giveaway\n\
                   `!gend <message_id>` — Terminer un giveaway\n\
                   `!greroll <message_id>` — Nouveau tirage\n\
                   `!glist` — Voir les giveaways actifs"@
    } else if i == 4 {
        "`!poll <question>` — Sondage Oui/Non\n\
                   `!poll <question> | <choix1> | <choix2>` — Choix multiples (max 9)"@
    } else if i == 5 {
        "`!setticket #catégorie [@rôle_support] [#salon_logs]` — Configurer\n\
                   `!ticketpanel [#salon]` — Envoyer le panneau à bouton\n\
                   `!delticket` — Désactiver le système\n\
                   `!tclose` — Fermer le ticket actuel\n\
                   `!tadd @user` — Ajouter un membre au ticket\n\
                   `!tremove @user` — Retirer un membre du ticket"@
    } else if i == 6 {
        "`!settempvc #salon-vocal` — Définir le salon hub (rejoindre = créer un salon perso)\n\
                   `!deltempvc` — Désactiver le système"@
    } else {
        "`!invite` — Obtenir le lien d'invitation OAuth2 du bot\n\
                   `!servers` — Lister les serveurs où le bot est présent *(owner)*\n\
                   `!leave <guild_id>` — Faire quitter le bot d'un serveur *(owner)*"@
    }
}

/// The aliases of category `i`.
pub fn aliases(i: usize) -> (r: Vec<&'static str>)
    requires
        i < CATEGORY_COUNT,
    ensures
        r@.map_values(|a: &str| a@) == aliases_of(i as int),
{
    let r: Vec<&'static str> = if i == 0 {
        vec!["moderation", "mod", "modération", "moderation"]
    } else if i == 1 {
        vec!["utility", "util", "utilitaires", "utilitaire"]
    } else if i == 2 {
        vec!["server", "serveur", "structure", "backup"]
    } else if i == 3 {
        vec!["giveaway", "giveaways", "gw", "concours"]
    } else if i == 4 {
        vec!["poll", "polls", "sondage", "sondages"]
    } else if i == 5 {
        vec!["ticket", "tickets"]
    } else if i == 6 {
        vec!["tempvc", "vocal", "vocaux", "vc"]
    } else {
        vec!["bot", "invite", "owner"]
    };
    assert(r@.map_values(|a: &str| a@) =~= aliases_of(i as int));
    r
}

/// The title of category `i`.
pub fn title(i: usize) -> (r: &'static str)
    requires
        i < CATEGORY_COUNT,
    ensures
        r@ == title_of(i as int),
{
    if i == 0 {
        "🛡️ Modération"
    } else if i == 1 {
        "🔧 Utilitaires"
    } else if i == 2 {
        "🗂️ Structure de serveur"
    } else if i == 3 {
        "🎉 Giveaways"
    } else if i == 4 {
        "📊 Sondages"
    } else if i == 5 {
        "🎫 Tickets"
    } else if i == 6 {
        "🔊 Salons vocaux temporaires"
    } else {
        "🤖 Bot"
    }
}

/// The commands that category `i` lists.
pub fn commands(i: usize) -> (r: &'static str)
    requires
        i < CATEGORY_COUNT,
    ensures
        r@ == commands_of(i as int),
{
    if i == 0 {
        "`!ban @user [@user2 ...] [raison]` — Bannir (mentions multiples)\n\
                   `!unban <id> [raison]` — Débannir\n\
                   `!kick @user [@user2 ...] [raison]` — Expulser (mentions multiples)\n\
                   `!mute @user [@user2 ...] <durée> [raison]` — Timeout (`10m`, `2h`, `1d`)\n\
                   `!unmute @user [@user2 ...]` — Retirer le timeout\n\
                   `!warn @user [@user2 ...] <raison>` — Avertir (mentions multiples)\n\
                   `!warnings @user` — Voir les avertissements\n\
                   `!clearwarns @user` — Effacer les avertissements\n\
                   `!clear <1-100>` — Supprimer des messages"
    } else if i == 1 {
        "`!slowmode <secondes>` — Mode lent (`0` pour désactiver)\n\
                   `!lock [#salon]` — Verrouiller un salon\n\
                   `!unlock [#salon]` — Déverrouiller un salon\n\
                   `!userinfo [@user]` — Infos d'un membre\n\
                   `!setmodlog #salon` — Définir le salon des logs de modération"
    } else if i == 2 {
        "`!sbackup` — Exporter rôles, catégories, salons et permissions en JSON\n\
                   `!srestore` — Recréer une structure depuis un fichier backup.json"
    } else if i == 3 {
        "`!gcreate <durée> <gagnants> <prix>` — Créer un giveaway\n\
                   `!gend <message_id>` — Terminer un giveaway\n\
                   `!greroll <message_id>` — Nouveau tirage\n\
                   `!glist` — Voir les giveaways actifs"
    } else if i == 4 {
        "`!poll <question>` — Sondage Oui/Non\n\
                   `!poll <question> | <choix1> | <choix2>` — Choix multiples (max 9)"
    } else if i == 5 {
        "`!setticket #catégorie [@rôle_support] [#salon_logs]` — Configurer\n\
                   `!ticketpanel [#salon]` — Envoyer le panneau à bouton\n\
                   `!delticket` — Désactiver le système\n\
                   `!tclose` — Fermer le ticket actuel\n\
                   `!tadd @user` — Ajouter un membre au ticket\n\
                   `!tremove @user` — Retirer un membre du ticket"
    } else if i == 6 {
        "`!settempvc #salon-vocal` — Définir le salon hub (rejoindre = créer un salon perso)\n\
                   `!deltempvc` — Désactiver le système"
    } else {
        "`!invite` — Obtenir le lien d'invitation OAuth2 du bot\n\
                   `!servers` — Lister les serveurs où le bot est présent *(owner)*\n\
                   `!leave <guild_id>` — Faire quitter le bot d'un serveur *(owner)*"
    }
}


/// What `str::to_lowercase` makes of a text (Unicode lower case mapping).
pub uninterp spec fn lowercase(s: Seq<char>) -> Seq<char>;

/// `str::to_lowercase`.
#[verifier::external_body]
fn to_lowercase(s: &str) -> (r: String)
    ensures
        r@ == lowercase(s@),
{
    s.to_lowercase()
}

/// The form in which a help query is compared: trimmed and lower-cased.
pub open spec fn query_key(query: Seq<char>) -> Seq<char> {
    lowercase(trim(query))
}

/// Category `i` has an alias whose lower case is `key`.
pub open spec fn category_matches(i: int, key: Seq<char>) -> bool {
    exists|j: int| 0 <= j < aliases_of(i).len() && lowercase(#[trigger] aliases_of(i)[j]) == key
}

/// The first category that a query asks for, comparing lower cases.
pub fn find_category(query: &str) -> (r: Option<usize>)
    ensures
        match r {
            Some(i) => i < CATEGORY_COUNT && category_matches(i as int, query_key(query@)) && forall|
                k: int,
            | 0 <= k < i ==> !category_matches(k, query_key(query@)),
            None => forall|k: int| 0 <= k < CATEGORY_COUNT ==> !category_matches(k, query_key(query@)),
        },
{
    let trimmed = string_of(&trim_chars(&chars_of(query)));
    let q = to_lowercase(trimmed.as_str());
    let qc = chars_of(q.as_str());
    let mut i: usize = 0;
    while i < CATEGORY_COUNT
        invariant
            i <= CATEGORY_COUNT,
            qc@ == query_key(query@),
            forall|k: int| 0 <= k < i ==> !category_matches(k, query_key(query@)),
        decreases CATEGORY_COUNT - i,
    {
        let al = aliases(i);
        let mut j: usize = 0;
        while j < al.len()
            invariant
                j <= al.len(),
                i < CATEGORY_COUNT,
                al@.map_values(|a: &str| a@) == aliases_of(i as int),
                qc@ == query_key(query@),
                forall|k: int| 0 <= k < i ==> !category_matches(k, query_key(query@)),
                forall|m: int| 0 <= m < j ==> lowercase(#[trigger] aliases_of(i as int)[m]) != qc@,
            decreases al.len() - j,
        {
            let low = to_lowercase(al[j]);
            assert(al@[j as int]@ == aliases_of(i as int)[j as int]);
            if chars_eq(&chars_of(low.as_str()), &qc) {
                assert(lowercase(aliases_of(i as int)[j as int]) == query_key(query@));
                return Some(i);
            }
            j = j + 1;
        }
        i = i + 1;
    }
    None
}

/// `• \`alias\`` for every category, one per line: the list shown when a
/// query matches no category.
pub open spec fn category_list() -> Seq<char> {
    join(Seq::new(CATEGORY_COUNT as nat, |i: int| "• `"@ + aliases_of(i)[0] + "`"@), "\n"@)
}

/// The list of categories shown when a query matches none.
pub fn category_list_text() -> (r: String)
    ensures
        r@ == category_list(),
{
    let mut parts: Vec<Vec<char>> = Vec::new();
    let mut i: usize = 0;
    while i < CATEGORY_COUNT
        invariant
            i <= CATEGORY_COUNT,
            parts.len() == i,
            forall|k: int| 0 <= k < i ==> #[trigger] parts@[k]@ == "• `"@ + aliases_of(k)[0] + "`"@,
        decreases CATEGORY_COUNT - i,
    {
        let al = aliases(i);
        assert(aliases_of(i as int).len() >= 2);
        assert(al@.map_values(|a: &str| a@).len() == al@.len());
        assert(al@.map_values(|a: &str| a@)[0] == al@[0]@);
        let mut line = chars_of("• `");
        append_chars(&mut line, &chars_of(al[0]));
        append_chars(&mut line, &chars_of("`"));
        parts.push(line);
        i = i + 1;
    }
    assert(parts@.map_values(|p: Vec<char>| p@) =~= Seq::new(
        CATEGORY_COUNT as nat,
        |i: int| "• `"@ + aliases_of(i)[0] + "`"@,
    ));
    string_of(&join_chars(&parts, &chars_of("\n")))
}

/// What `help` shows.
pub enum HelpReply {
    /// Every category, for `help` alone.
    Overview,
    /// One category.
    Category(usize),
    /// The query matched no category; the list of categories.
    Unknown { list: String },
}

/// What `help [category]` shows.
pub fn help_reply(query: Option<&str>) -> (r: HelpReply)
    ensures
        query is None ==> r is Overview,
        query matches Some(q) ==> match r {
            HelpReply::Category(i) => i < CATEGORY_COUNT && category_matches(i as int, query_key(q@))
                && forall|k: int| 0 <= k < i ==> !category_matches(k, query_key(q@)),
            HelpReply::Unknown { list } => list@ == category_list() && forall|k: int|
                0 <= k < CATEGORY_COUNT ==> !category_matches(k, query_key(q@)),
            HelpReply::Overview => false,
        },
{
    match query {
        None => HelpReply::Overview,
        Some(q) => match find_category(q) {
            Some(i) => HelpReply::Category(i),
            None => HelpReply::Unknown { list: category_list_text() },
        },
    }
}

/// The category that an alias belongs to, told by its first two letters.
spec fn category_by_prefix(a: char, b: char) -> int {
    if a == 'm' && b == 'o' {
        0
    } else if a == 'u' && b == 't' {
        1
    } else if (a == 's' && (b == 'e' || b == 't')) || (a == 'b' && b == 'a') {
        2
    } else if (a == 'g' && (b == 'i' || b == 'w')) || (a == 'c' && b == 'o') {
        3
    } else if (a == 'p' && b == 'o') || (a == 's' && b == 'o') {
        4
    } else if a == 't' && b == 'i' {
        5
    } else if (a == 't' && b == 'e') || (a == 'v' && (b == 'o' || b == 'c')) {
        6
    } else if (a == 'b' && b == 'o') || (a == 'i' && b == 'n') || (a == 'o' && b == 'w') {
        7
    } else {
        -1
    }
}

/// Every alias has at least two letters, and its first two tell its
/// category.
proof fn lemma_alias_prefix(i: int, k: int)
    requires
        0 <= i < CATEGORY_COUNT,
        0 <= k < aliases_of(i).len(),
    ensures
        aliases_of(i)[k].len() >= 2,
        category_by_prefix(aliases_of(i)[k][0], aliases_of(i)[k][1]) == i,
{
    reveal_strlit("moderation");
    reveal_strlit("mod");
    reveal_strlit("modération");
    reveal_strlit("utility");
    reveal_strlit("util");
    reveal_strlit("utilitaires");
    reveal_strlit("utilitaire");
    reveal_strlit("server");
    reveal_strlit("serveur");
    reveal_strlit("structure");
    reveal_strlit("backup");
    reveal_strlit("giveaway");
    reveal_strlit("giveaways");
    reveal_strlit("gw");
    reveal_strlit("concours");
    reveal_strlit("poll");
    reveal_strlit("polls");
    reveal_strlit("sondage");
    reveal_strlit("sondages");
    reveal_strlit("ticket");
    reveal_strlit("tickets");
    reveal_strlit("tempvc");
    reveal_strlit("vocal");
    reveal_strlit("vocaux");
    reveal_strlit("vc");
    reveal_strlit("bot");
    reveal_strlit("invite");
    reveal_strlit("owner");
}

/// No alias names two categories: the aliases of different categories
/// are different texts, so a category is asked for by each of its own
/// aliases and by no other category's.
pub proof fn aliases_name_one_category(i: int, j: int, k: int, m: int)
    requires
        0 <= i < CATEGORY_COUNT,
        0 <= j < CATEGORY_COUNT,
        i != j,
        0 <= k < aliases_of(i).len(),
        0 <= m < aliases_of(j).len(),
    ensures
        aliases_of(i)[k] != aliases_of(j)[m],
{
    lemma_alias_prefix(i, k);
    lemma_alias_prefix(j, m);
}

/// A query that reads, once trimmed and in lower case, as an alias of
/// category `i` asks for category `i` and for no other, wherever lower
/// case keeps distinct aliases distinct (as it does for these aliases,
/// written in lower case already); `find_category` and `help_reply` then
/// give category `i`.
pub proof fn alias_finds_its_category(i: int, k: int, query: Seq<char>)
    requires
        0 <= i < CATEGORY_COUNT,
        0 <= k < aliases_of(i).len(),
        query_key(query) == lowercase(aliases_of(i)[k]),
        forall|j: int, m: int|
            0 <= j < CATEGORY_COUNT && 0 <= m < aliases_of(j).len() && aliases_of(j)[m]
                != aliases_of(i)[k] ==> lowercase(#[trigger] aliases_of(j)[m]) != lowercase(
                aliases_of(i)[k],
            ),
    ensures
        category_matches(i, query_key(query)),
        forall|j: int| 0 <= j < CATEGORY_COUNT && j != i ==> !category_matches(j, query_key(query)),
{
    assert(lowercase(aliases_of(i)[k]) == query_key(query));
    assert forall|j: int| 0 <= j < CATEGORY_COUNT && j != i implies !category_matches(
        j,
        query_key(query),
    ) by {
        assert forall|m: int| 0 <= m < aliases_of(j).len() implies lowercase(
            #[trigger] aliases_of(j)[m],
        ) != query_key(query) by {
            aliases_name_one_category(i, j, k, m);
        }
    }
}

} // verus!
