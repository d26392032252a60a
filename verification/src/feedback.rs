//! What the results screen says of a score: a verdict on the whole and a
//! remark on each thematic.

use crate::radar::{label_of, score_label};
use crate::scoring::{
    global_of, score_views, Ratio, Score, ScoreBand, SurveyResults, ThematicScoreView,
};
use crate::text::str_eq;
use vstd::prelude::*;

verus! {

/// The name of the thematic "Business Model".
pub const THEMATIC_BUSINESS_MODEL: &'static str = "Business Model";

/// The name of the thematic "Produit".
pub const THEMATIC_PRODUIT: &'static str = "Produit";

/// The name of the thematic "Go-to-Market".
pub const THEMATIC_GO_TO_MARKET: &'static str = "Go-to-Market";

/// The name of the thematic "Organisation".
pub const THEMATIC_ORGANISATION: &'static str = "Organisation";

/// The name of the thematic "Financement".
pub const THEMATIC_FINANCEMENT: &'static str = "Financement";

/// The verdict on a global score in the band `Lowest`.
pub const GLOBAL_LOWEST: &'static str =
    "Votre startup a encore beaucoup de potentiel à développer ! Le programme Start to Scale vous accompagnera pour structurer votre croissance et accélérer votre développement.";

/// The verdict on a global score in the band `Low`.
pub const GLOBAL_LOW: &'static str =
    "Vous êtes sur la bonne voie, mais il reste des étapes importantes à franchir. Le programme Start to Scale peut vous aider à identifier les priorités et à structurer votre approche pour passer à l'échelle.";

/// The verdict on a global score in the band `Middle`.
pub const GLOBAL_MIDDLE: &'static str =
    "Vous avez de solides bases ! Le programme Start to Scale vous permettra d'optimiser vos processus et de renforcer les domaines qui nécessitent encore de l'attention pour accélérer votre croissance.";

/// The verdict on a global score in the band `High`.
pub const GLOBAL_HIGH: &'static str =
    "Félicitations, vous êtes bien avancé ! Le programme Start to Scale vous aidera à peaufiner les derniers détails et à maximiser votre potentiel de croissance. Même les meilleurs ont toujours des axes d'amélioration.";

/// The verdict on a global score in the band `Highest`.
pub const GLOBAL_HIGHEST: &'static str =
    "Impressionnant ! Vous avez une maturité remarquable. Le programme Start to Scale vous accompagnera pour maintenir cette excellence, anticiper les défis du scaling et continuer à évoluer. Même au top, il y a toujours des opportunités d'optimisation !";

/// The remark on "Business Model" for a score in the band `Lowest`.
pub const BUSINESS_MODEL_LOWEST: &'static str =
    "Votre modèle économique est un peu comme un GPS sans signal : vous savez où vous voulez aller, mais le chemin reste flou. Pas de panique, on va tracer la route ensemble !";

/// The remark on "Business Model" for a score in the band `Low`.
pub const BUSINESS_MODEL_LOW: &'static str =
    "Votre business model commence à prendre forme, mais il manque encore quelques pièces du puzzle. C'est comme un IKEA sans notice : faisable, mais plus long !";

/// The remark on "Business Model" for a score in the band `Middle`.
pub const BUSINESS_MODEL_MIDDLE: &'static str =
    "Vous avez une base solide, mais il reste des zones d'ombre. C'est comme avoir une recette sans les quantités exactes : ça peut marcher, mais c'est risqué !";

/// The remark on "Business Model" for a score in the band `High`.
pub const BUSINESS_MODEL_HIGH: &'static str =
    "Votre modèle économique est bien structuré ! Il ne manque plus que quelques ajustements pour passer à la vitesse supérieure. On dirait presque un pro !";

/// The remark on "Business Model" for a score in the band `Highest`.
pub const BUSINESS_MODEL_HIGHEST: &'static str =
    "Remarquable ! Votre business model est solide comme un roc. Vous êtes prêt à scaler, mais même les meilleurs ont toujours des axes d'amélioration !";

/// The remark on "Produit" for a score in the band `Lowest`.
pub const PRODUIT_LOWEST: &'static str =
    "Votre produit semble être en mode 'stealth mode' : invisible, même pour vous ! Il est temps de sortir de l'ombre et de voir ce qui se passe vraiment.";

/// The remark on "Produit" for a score in the band `Low`.
pub const PRODUIT_LOW: &'static str =
    "Vous commencez à avoir une idée de ce qui se passe dans votre produit, mais c'est encore un peu flou. C'est comme regarder à travers une vitre embuée : on devine, mais on ne voit pas tout !";

/// The remark on "Produit" for a score in the band `Middle`.
pub const PRODUIT_MIDDLE: &'static str =
    "Vous avez mis en place quelques outils de suivi, mais il manque encore des pièces du puzzle. C'est comme avoir un tableau de bord avec la moitié des voyants éteints !";

/// The remark on "Produit" for a score in the band `High`.
pub const PRODUIT_HIGH: &'static str =
    "Chapeau ! Votre produit est bien instrumenté. Vous avez une bonne vision de ce qui se passe, avec juste quelques angles morts à éclaircir.";

/// The remark on "Produit" for a score in the band `Highest`.
pub const PRODUIT_HIGHEST: &'static str =
    "Parfait ! Votre produit est sous surveillance rapprochée. Vous savez tout (ou presque) de ce qui s'y passe. Un vrai pro de la data !";

/// The remark on "Go-to-Market" for a score in the band `Lowest`.
pub const GO_TO_MARKET_LOWEST: &'static str =
    "Votre stratégie go-to-market est un peu comme lancer une bouteille à la mer : vous espérez que quelqu'un la trouvera, mais vous ne savez pas qui ni quand !";

/// The remark on "Go-to-Market" for a score in the band `Low`.
pub const GO_TO_MARKET_LOW: &'static str =
    "Vous avez quelques idées sur comment aller au marché, mais c'est encore un peu au feeling. C'est comme naviguer sans boussole : ça peut marcher, mais c'est risqué !";

/// The remark on "Go-to-Market" for a score in the band `Middle`.
pub const GO_TO_MARKET_MIDDLE: &'static str =
    "Votre go-to-market prend forme, mais il manque encore de la structure. C'est comme avoir une carte sans légende : vous savez où vous êtes, mais pas comment arriver à destination !";

/// The remark on "Go-to-Market" for a score in the band `High`.
pub const GO_TO_MARKET_HIGH: &'static str =
    "Votre stratégie go-to-market est bien rodée ! Vous avez les bons outils et les bons indicateurs. Il ne reste plus qu'à optimiser pour passer à la vitesse supérieure.";

/// The remark on "Go-to-Market" for a score in the band `Highest`.
pub const GO_TO_MARKET_HIGHEST: &'static str =
    "Formidable ! Votre go-to-market est une machine bien huilée. Vous savez exactement où vous allez et comment y arriver. Un vrai stratège !";

/// The remark on "Organisation" for a score in the band `Lowest`.
pub const ORGANISATION_LOWEST: &'static str =
    "Votre organisation ressemble un peu à une ruche sans reine : tout le monde bouge, mais personne ne sait vraiment qui fait quoi ! Il est temps de structurer tout ça.";

/// The remark on "Organisation" for a score in the band `Low`.
pub const ORGANISATION_LOW: &'static str =
    "Vous avez commencé à organiser les choses, mais c'est encore un peu le bazar. C'est comme un tiroir à chaussettes : on trouve parfois, mais c'est rarement au bon endroit !";

/// The remark on "Organisation" for a score in the band `Middle`.
pub const ORGANISATION_MIDDLE: &'static str =
    "Votre organisation a une structure, mais elle pourrait être plus claire. C'est comme avoir un organigramme écrit sur un post-it : ça existe, mais c'est fragile !";

/// The remark on "Organisation" for a score in the band `High`.
pub const ORGANISATION_HIGH: &'static str =
    "Félicitations ! Votre organisation est bien structurée. Les rôles sont clairs et les processus en place. Il ne reste plus qu'à peaufiner les détails.";

/// The remark on "Organisation" for a score in the band `Highest`.
pub const ORGANISATION_HIGHEST: &'static str =
    "Exemplaire ! Votre organisation est au top. Tout est bien défini, documenté et rodé. Vous êtes prêt à scaler sans perdre en efficacité !";

/// The remark on "Financement" for a score in the band `Lowest`.
pub const FINANCEMENT_LOWEST: &'static str =
    "Votre stratégie de financement est un peu comme chercher une aiguille dans une botte de foin : vous savez qu'elle existe, mais vous ne savez pas où la chercher !";

/// The remark on "Financement" for a score in the band `Low`.
pub const FINANCEMENT_LOW: &'static str =
    "Vous avez quelques idées sur le financement, mais c'est encore flou. C'est comme avoir un compte en banque sans savoir combien il contient : vous espérez que c'est suffisant !";

/// The remark on "Financement" for a score in the band `Middle`.
pub const FINANCEMENT_MIDDLE: &'static str =
    "Votre approche du financement est en cours de structuration. Vous avez les bases, mais il manque encore quelques éléments clés pour convaincre les investisseurs.";

/// The remark on "Financement" for a score in the band `High`.
pub const FINANCEMENT_HIGH: &'static str =
    "Bien joué ! Votre stratégie de financement est solide. Vous avez les bons outils et les bons arguments. Il ne reste plus qu'à peaufiner pour maximiser vos chances.";

/// The remark on "Financement" for a score in the band `Highest`.
pub const FINANCEMENT_HIGHEST: &'static str =
    "Exceptionnel ! Votre stratégie de financement est au point. Vous êtes prêt à lever des fonds comme un pro. Les investisseurs vont se battre pour vous !";

/// The remark on a thematic that has none of its own.
pub const REMARK_OTHER: &'static str =
    "Votre score indique qu'il y a encore du travail à faire, mais c'est normal ! Chaque startup a ses défis à relever.";

/// The thematics that have remarks of their own.
#[derive(Clone, Copy, Debug, PartialEq, Eq, Structural)]
pub enum Topic {
    BusinessModel,
    Produit,
    GoToMarket,
    Organisation,
    Financement,
    /// Any other name.
    Other,
}

impl Topic {
    /// The topic that the thematic name `name` stands for.
    pub open spec fn named(name: Seq<char>) -> Topic {
        if name == THEMATIC_BUSINESS_MODEL@ {
            Topic::BusinessModel
        } else if name == THEMATIC_PRODUIT@ {
            Topic::Produit
        } else if name == THEMATIC_GO_TO_MARKET@ {
            Topic::GoToMarket
        } else if name == THEMATIC_ORGANISATION@ {
            Topic::Organisation
        } else if name == THEMATIC_FINANCEMENT@ {
            Topic::Financement
        } else {
            Topic::Other
        }
    }

    /// The topic of the thematic `name`. Only the exact names count.
    pub fn of(name: &str) -> (topic: Topic)
        ensures
            topic == Topic::named(name@),
    {
        if str_eq(name, THEMATIC_BUSINESS_MODEL) {
            Topic::BusinessModel
        } else if str_eq(name, THEMATIC_PRODUIT) {
            Topic::Produit
        } else if str_eq(name, THEMATIC_GO_TO_MARKET) {
            Topic::GoToMarket
        } else if str_eq(name, THEMATIC_ORGANISATION) {
            Topic::Organisation
        } else if str_eq(name, THEMATIC_FINANCEMENT) {
            Topic::Financement
        } else {
            Topic::Other
        }
    }
}

/// The verdict on a global score in `band`.
pub open spec fn global_text(band: ScoreBand) -> Seq<char> {
    match band {
        ScoreBand::Lowest => GLOBAL_LOWEST@,
        ScoreBand::Low => GLOBAL_LOW@,
        ScoreBand::Middle => GLOBAL_MIDDLE@,
        ScoreBand::High => GLOBAL_HIGH@,
        ScoreBand::Highest => GLOBAL_HIGHEST@,
    }
}

/// The verdict on a global score in `band`.
pub fn global_message(band: ScoreBand) -> (message: &'static str)
    ensures
        message@ == global_text(band),
{
    match band {
        ScoreBand::Lowest => GLOBAL_LOWEST,
        ScoreBand::Low => GLOBAL_LOW,
        ScoreBand::Middle => GLOBAL_MIDDLE,
        ScoreBand::High => GLOBAL_HIGH,
        ScoreBand::Highest => GLOBAL_HIGHEST,
    }
}

/// The remark on `topic` for a score in `band`.
pub open spec fn remark_text(topic: Topic, band: ScoreBand) -> Seq<char> {
    match topic {
        Topic::BusinessModel => match band {
            ScoreBand::Lowest => BUSINESS_MODEL_LOWEST@,
            ScoreBand::Low => BUSINESS_MODEL_LOW@,
            ScoreBand::Middle => BUSINESS_MODEL_MIDDLE@,
            ScoreBand::High => BUSINESS_MODEL_HIGH@,
            ScoreBand::Highest => BUSINESS_MODEL_HIGHEST@,
        },
        Topic::Produit => match band {
            ScoreBand::Lowest => PRODUIT_LOWEST@,
            ScoreBand::Low => PRODUIT_LOW@,
            ScoreBand::Middle => PRODUIT_MIDDLE@,
            ScoreBand::High => PRODUIT_HIGH@,
            ScoreBand::Highest => PRODUIT_HIGHEST@,
        },
        Topic::GoToMarket => match band {
            ScoreBand::Lowest => GO_TO_MARKET_LOWEST@,
            ScoreBand::Low => GO_TO_MARKET_LOW@,
            ScoreBand::Middle => GO_TO_MARKET_MIDDLE@,
            ScoreBand::High => GO_TO_MARKET_HIGH@,
            ScoreBand::Highest => GO_TO_MARKET_HIGHEST@,
        },
        Topic::Organisation => match band {
            ScoreBand::Lowest => ORGANISATION_LOWEST@,
            ScoreBand::Low => ORGANISATION_LOW@,
            ScoreBand::Middle => ORGANISATION_MIDDLE@,
            ScoreBand::High => ORGANISATION_HIGH@,
            ScoreBand::Highest => ORGANISATION_HIGHEST@,
        },
        Topic::Financement => match band {
            ScoreBand::Lowest => FINANCEMENT_LOWEST@,
            ScoreBand::Low => FINANCEMENT_LOW@,
            ScoreBand::Middle => FINANCEMENT_MIDDLE@,
            ScoreBand::High => FINANCEMENT_HIGH@,
            ScoreBand::Highest => FINANCEMENT_HIGHEST@,
        },
        Topic::Other => REMARK_OTHER@,
    }
}

/// The remark on `topic` for a score in `band`.
pub fn remark(topic: Topic, band: ScoreBand) -> (message: &'static str)
    ensures
        message@ == remark_text(topic, band),
{
    match topic {
        Topic::BusinessModel => match band {
            ScoreBand::Lowest => BUSINESS_MODEL_LOWEST,
            ScoreBand::Low => BUSINESS_MODEL_LOW,
            ScoreBand::Middle => BUSINESS_MODEL_MIDDLE,
            ScoreBand::High => BUSINESS_MODEL_HIGH,
            ScoreBand::Highest => BUSINESS_MODEL_HIGHEST,
        },
        Topic::Produit => match band {
            ScoreBand::Lowest => PRODUIT_LOWEST,
            ScoreBand::Low => PRODUIT_LOW,
            ScoreBand::Middle => PRODUIT_MIDDLE,
            ScoreBand::High => PRODUIT_HIGH,
            ScoreBand::Highest => PRODUIT_HIGHEST,
        },
        Topic::GoToMarket => match band {
            ScoreBand::Lowest => GO_TO_MARKET_LOWEST,
            ScoreBand::Low => GO_TO_MARKET_LOW,
            ScoreBand::Middle => GO_TO_MARKET_MIDDLE,
            ScoreBand::High => GO_TO_MARKET_HIGH,
            ScoreBand::Highest => GO_TO_MARKET_HIGHEST,
        },
        Topic::Organisation => match band {
            ScoreBand::Lowest => ORGANISATION_LOWEST,
            ScoreBand::Low => ORGANISATION_LOW,
            ScoreBand::Middle => ORGANISATION_MIDDLE,
            ScoreBand::High => ORGANISATION_HIGH,
            ScoreBand::Highest => ORGANISATION_HIGHEST,
        },
        Topic::Financement => match band {
            ScoreBand::Lowest => FINANCEMENT_LOWEST,
            ScoreBand::Low => FINANCEMENT_LOW,
            ScoreBand::Middle => FINANCEMENT_MIDDLE,
            ScoreBand::High => FINANCEMENT_HIGH,
            ScoreBand::Highest => FINANCEMENT_HIGHEST,
        },
        Topic::Other => REMARK_OTHER,
    }
}

/// The remark on the thematic `thematic` for `score`: that of its topic and
/// of the band of the score.
pub fn get_feedback_message(thematic: &str, score: &Score) -> (message: &'static str)
    ensures
        message@ == remark_text(Topic::named(thematic@), score@.band()),
{
    remark(Topic::of(thematic), score.band())
}

/// The verdict on the global score `score`: that of its band.
pub fn get_global_message(score: &Score) -> (message: &'static str)
    ensures
        message@ == global_text(score@.band()),
{
    global_message(score.band())
}

/// One line of the detailed analysis: a thematic, its score as a label, and
/// the remark on it.
#[derive(Debug)]
pub struct FeedbackRow {
    pub thematic: String,
    pub score_label: String,
    pub message: &'static str,
}

/// What a `FeedbackRow` holds.
pub struct FeedbackRowView {
    pub thematic: Seq<char>,
    pub score_label: Seq<char>,
    pub message: Seq<char>,
}

impl View for FeedbackRow {
    type V = FeedbackRowView;

    open spec fn view(&self) -> FeedbackRowView {
        FeedbackRowView {
            thematic: self.thematic@,
            score_label: self.score_label@,
            message: self.message@,
        }
    }
}

/// The global score with its label and the verdict on it.
#[derive(Debug)]
pub struct GlobalSummary {
    pub score: Score,
    pub label: String,
    pub message: &'static str,
}

/// What the results screen shows.
#[derive(Debug)]
pub struct ResultsSummary {
    /// The global score; `None` where it does not fit the machine's widest
    /// integer.
    pub global: Option<GlobalSummary>,
    /// The thematics, in the order of the results.
    pub rows: Vec<FeedbackRow>,
}

/// The line of the analysis for one thematic score.
pub open spec fn row_of(entry: ThematicScoreView) -> FeedbackRowView {
    FeedbackRowView {
        thematic: entry.thematic,
        score_label: label_of(entry.score),
        message: remark_text(Topic::named(entry.thematic), entry.score.band()),
    }
}

/// `global` is the summary of the global score `mean`, the mean of the
/// thematic scores.
pub open spec fn is_global_of(global: GlobalSummary, mean: Ratio) -> bool {
    &&& global.score@ == mean
    &&& global.label@ == label_of(mean)
    &&& global.message@ == global_text(mean.band())
}

/// `summary` is the summary of `scores`: their mean as the global score,
/// unless it does not fit, and one line for each of them in their order.
pub open spec fn is_summary_of(summary: ResultsSummary, scores: Seq<ThematicScoreView>) -> bool {
    &&& summary.global is Some <==> 100 * global_of(scores).den <= u128::MAX
    &&& summary.global matches Some(g) ==> is_global_of(g, global_of(scores))
    &&& summary.rows@.len() == scores.len()
    &&& forall|i: int|
        0 <= i < summary.rows@.len() ==> (#[trigger] summary.rows@[i])@ == row_of(scores[i])
}

/// Puts together what the results screen shows: the global score, which is
/// the mean of the thematic scores, with its label and verdict, and one
/// line for each thematic in the order of the results.
pub fn summarize(results: &SurveyResults) -> (summary: ResultsSummary)
    ensures
        is_summary_of(summary, results@.scores),
{
    let global = match results.global_score() {
        Some(score) => Some(
            GlobalSummary {
                score,
                label: score_label(&score),
                message: get_global_message(&score),
            },
        ),
        None => None,
    };
    let scores = results.scores();
    let ghost all = results@.scores;
    let mut rows: Vec<FeedbackRow> = Vec::new();
    let mut i: usize = 0;
    while i < scores.len()
        invariant
            i <= scores.len(),
            all == score_views(scores@),
            rows@.len() == i,
            forall|j: int| 0 <= j < i ==> (#[trigger] rows@[j])@ == row_of(all[j]),
        decreases scores.len() - i,
    {
        let entry = &scores[i];
        assert(all[i as int] == entry@);
        rows.push(
            FeedbackRow {
                thematic: entry.thematic.clone(),
                score_label: score_label(&entry.score),
                message: get_feedback_message(entry.thematic.as_str(), &entry.score),
            },
        );
        i += 1;
    }
    ResultsSummary { global, rows }
}

} // verus!
